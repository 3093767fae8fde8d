//! The canonical byte encoding of transactions, headers and blocks, and the identities
//! (transaction ids, header hashes) derived from it.
//!
//! Integers are little-endian at their full width, a byte string or a list is preceded by
//! its length as eight bytes, an optional value by one tag byte, and a transaction by the
//! four-byte index of its variant.
use vstd::prelude::*;
use crate::bytes::{extend_bytes, push_u32_le, push_u64_le, u32_le, u64_le};
use crate::crypto::{blake3_digest, blake3_hash};
use crate::types::{
    byte_lists, inputs_view, opt_bytes, outputs_view, Block, BlockHeader, OutPoint, TicketVote,
    opt_text, ProposalType, Transaction, TransactionModel, TxInput, TxInputModel, TxOutput, TxOutputModel,
    VoteChoice, VoterType,
};

verus! {

/// The concatenation of `f` applied to each item, in order.
pub open spec fn concat_map<A>(s: Seq<A>, f: spec_fn(A) -> Seq<u8>) -> Seq<u8>
    decreases s.len(),
{
    if s.len() == 0 {
        Seq::empty()
    } else {
        concat_map(s.drop_last(), f) + f(s.last())
    }
}

pub proof fn lemma_concat_map_step<A>(s: Seq<A>, f: spec_fn(A) -> Seq<u8>, i: int)
    requires
        0 <= i < s.len(),
    ensures
        concat_map(s.take(i + 1), f) == concat_map(s.take(i), f) + f(s[i]),
{
    assert(s.take(i + 1).drop_last() =~= s.take(i));
}

pub open spec fn enc_bytes(b: Seq<u8>) -> Seq<u8> {
    u64_le(b.len() as u64) + b
}

pub open spec fn enc_byte_lists(s: Seq<Seq<u8>>) -> Seq<u8> {
    u64_le(s.len() as u64) + concat_map(s, |b: Seq<u8>| enc_bytes(b))
}

pub open spec fn enc_opt_bytes(m: Option<Seq<u8>>) -> Seq<u8> {
    match m {
        None => seq![0u8],
        Some(b) => seq![1u8] + enc_bytes(b),
    }
}

/// A text by its UTF-8 bytes, preceded by their number.
pub open spec fn enc_text(t: Seq<char>) -> Seq<u8> {
    enc_bytes(vstd::utf8::encode_utf8(t))
}

pub open spec fn enc_opt_text(m: Option<Seq<char>>) -> Seq<u8> {
    match m {
        None => seq![0u8],
        Some(t) => seq![1u8] + enc_text(t),
    }
}

pub open spec fn enc_outpoint(o: OutPoint) -> Seq<u8> {
    o.txid@ + u32_le(o.vout)
}

pub open spec fn enc_input(i: TxInputModel) -> Seq<u8> {
    enc_outpoint(i.previous_output) + enc_bytes(i.script_sig) + u32_le(i.sequence)
        + enc_byte_lists(i.witness)
}

pub open spec fn enc_output(o: TxOutputModel) -> Seq<u8> {
    u64_le(o.value) + enc_bytes(o.script_pubkey) + enc_opt_bytes(o.memo)
}

pub open spec fn enc_inputs(s: Seq<TxInputModel>) -> Seq<u8> {
    u64_le(s.len() as u64) + concat_map(s, |i: TxInputModel| enc_input(i))
}

pub open spec fn enc_outputs(s: Seq<TxOutputModel>) -> Seq<u8> {
    u64_le(s.len() as u64) + concat_map(s, |o: TxOutputModel| enc_output(o))
}

pub open spec fn vote_choice_tag(c: VoteChoice) -> u32 {
    match c {
        VoteChoice::Yes => 0,
        VoteChoice::No => 1,
        VoteChoice::Abstain => 2,
    }
}

pub open spec fn proposal_type_tag(t: ProposalType) -> u32 {
    match t {
        ProposalType::ParameterChange => 0,
        ProposalType::ProtocolUpgrade => 1,
        ProposalType::TreasurySpend => 2,
        ProposalType::BugFix => 3,
        ProposalType::CommunityFund => 4,
    }
}

pub open spec fn voter_type_tag(t: VoterType) -> u32 {
    match t {
        VoterType::PosTicket => 0,
        VoterType::Masternode => 1,
    }
}

/// The canonical encoding of a transaction.
#[verifier::opaque]
pub open spec fn enc_transaction(t: TransactionModel) -> Seq<u8> {
    match t {
        TransactionModel::Standard { version, inputs, outputs, lock_time, fee, witness } =>
            u32_le(0) + u32_le(version) + enc_inputs(inputs) + enc_outputs(outputs) + u32_le(
            lock_time,
        ) + u64_le(fee) + enc_byte_lists(witness),
        TransactionModel::Coinbase { version, inputs, outputs, lock_time, witness } => u32_le(1)
            + u32_le(version) + enc_inputs(inputs) + enc_outputs(outputs) + u32_le(lock_time)
            + enc_byte_lists(witness),
        TransactionModel::TicketPurchase {
            version,
            inputs,
            outputs,
            ticket_id,
            locked_amount,
            lock_time,
            fee,
            ticket_address,
            witness,
        } => u32_le(2) + u32_le(version) + enc_inputs(inputs) + enc_outputs(outputs) + ticket_id@
            + u64_le(locked_amount) + u32_le(lock_time) + u64_le(fee) + enc_bytes(ticket_address)
            + enc_byte_lists(witness),
        TransactionModel::TicketRedemption {
            version,
            inputs,
            outputs,
            ticket_id,
            lock_time,
            fee,
            witness,
        } => u32_le(3) + u32_le(version) + enc_inputs(inputs) + enc_outputs(outputs) + ticket_id@
            + u32_le(lock_time) + u64_le(fee) + enc_byte_lists(witness),
        TransactionModel::MasternodeRegister {
            collateral_outpoint,
            operator_public_key,
            collateral_ownership_public_key,
            network_address,
            signature,
            lock_time,
            inputs,
            outputs,
            witness,
        } => u32_le(4) + enc_outpoint(collateral_outpoint) + operator_public_key@
            + collateral_ownership_public_key@ + enc_bytes(network_address) + enc_bytes(signature)
            + u32_le(lock_time) + enc_inputs(inputs) + enc_outputs(outputs) + enc_byte_lists(
            witness,
        ),
        TransactionModel::GovernanceProposal {
            proposal_id,
            proposer_address,
            start_block_height,
            end_block_height,
            description_hash,
            proposer_signature,
            inputs,
            outputs,
            lock_time,
            fee,
            title,
            proposal_type,
            target_parameter,
            new_value,
        } => u32_le(5) + proposal_id@ + proposer_address@ + u64_le(start_block_height) + u64_le(
            end_block_height,
        ) + description_hash@ + enc_bytes(proposer_signature) + enc_inputs(inputs) + enc_outputs(
            outputs,
        ) + u32_le(lock_time) + u64_le(fee) + enc_text(title) + u32_le(proposal_type_tag(proposal_type))
            + enc_opt_text(target_parameter) + enc_opt_text(new_value),
        TransactionModel::GovernanceVote {
            proposal_id,
            voter_id,
            vote_choice,
            voter_signature,
            inputs,
            outputs,
            lock_time,
            fee,
            voter_type,
        } => u32_le(6) + proposal_id@ + voter_id@ + u32_le(vote_choice_tag(vote_choice))
            + enc_bytes(voter_signature) + enc_inputs(inputs) + enc_outputs(outputs) + u32_le(
            lock_time,
        ) + u64_le(fee) + u32_le(voter_type_tag(voter_type)),
    }
}

/// The identity of a transaction: the BLAKE3 digest of its encoding.
pub open spec fn spec_txid(t: TransactionModel) -> [u8; 32] {
    blake3_digest(enc_transaction(t))
}

pub fn encode_bytes(out: &mut Vec<u8>, b: &[u8])
    ensures
        final(out)@ == old(out)@ + enc_bytes(b@),
{
    push_u64_le(out, b.len() as u64);
    extend_bytes(out, b);
    assert(out@ =~= old(out)@ + enc_bytes(b@));
}

pub fn encode_byte_lists(out: &mut Vec<u8>, v: &Vec<Vec<u8>>)
    ensures
        final(out)@ == old(out)@ + enc_byte_lists(byte_lists(v@)),
{
    let ghost s = byte_lists(v@);
    let ghost f = |b: Seq<u8>| enc_bytes(b);
    push_u64_le(out, v.len() as u64);
    let ghost start = out@;
    let mut i: usize = 0;
    while i < v.len()
        invariant
            i <= v@.len(),
            s == byte_lists(v@),
            out@ == start + concat_map(s.take(i as int), f),
            f == (|b: Seq<u8>| enc_bytes(b)),
        decreases v@.len() - i,
    {
        encode_bytes(out, v[i].as_slice());
        proof {
            lemma_concat_map_step(s, f, i as int);
            assert(s[i as int] == v@[i as int]@);
        }
        i = i + 1;
        assert(out@ =~= start + concat_map(s.take(i as int), f));
    }
    assert(s.take(v@.len() as int) =~= s);
    assert(out@ =~= old(out)@ + enc_byte_lists(s));
}

pub fn encode_opt_bytes(out: &mut Vec<u8>, m: &Option<Vec<u8>>)
    ensures
        final(out)@ == old(out)@ + enc_opt_bytes(opt_bytes(*m)),
{
    match m {
        None => {
            out.push(0u8);
            assert(out@ =~= old(out)@ + enc_opt_bytes(opt_bytes(*m)));
        },
        Some(b) => {
            out.push(1u8);
            encode_bytes(out, b.as_slice());
            assert(out@ =~= old(out)@ + enc_opt_bytes(opt_bytes(*m)));
        },
    }
}

pub fn encode_text(out: &mut Vec<u8>, t: &str)
    ensures
        final(out)@ == old(out)@ + enc_text(t@),
{
    encode_bytes(out, t.as_bytes());
}

pub fn encode_opt_text(out: &mut Vec<u8>, m: &Option<String>)
    ensures
        final(out)@ == old(out)@ + enc_opt_text(opt_text(*m)),
{
    match m {
        None => {
            out.push(0u8);
            assert(out@ =~= old(out)@ + enc_opt_text(opt_text(*m)));
        },
        Some(t) => {
            out.push(1u8);
            encode_text(out, t.as_str());
            assert(out@ =~= old(out)@ + enc_opt_text(opt_text(*m)));
        },
    }
}

pub fn encode_hash(out: &mut Vec<u8>, h: &[u8; 32])
    ensures
        final(out)@ == old(out)@ + h@,
{
    extend_bytes(out, h.as_slice());
}

pub fn encode_outpoint(out: &mut Vec<u8>, o: &OutPoint)
    ensures
        final(out)@ == old(out)@ + enc_outpoint(*o),
{
    encode_hash(out, &o.txid);
    push_u32_le(out, o.vout);
    assert(out@ =~= old(out)@ + enc_outpoint(*o));
}

pub fn encode_input(out: &mut Vec<u8>, i: &TxInput)
    ensures
        final(out)@ == old(out)@ + enc_input(i@),
{
    encode_outpoint(out, &i.previous_output);
    encode_bytes(out, i.script_sig.as_slice());
    push_u32_le(out, i.sequence);
    encode_byte_lists(out, &i.witness);
    assert(out@ =~= old(out)@ + enc_input(i@));
}

pub fn encode_output(out: &mut Vec<u8>, o: &TxOutput)
    ensures
        final(out)@ == old(out)@ + enc_output(o@),
{
    push_u64_le(out, o.value);
    encode_bytes(out, o.script_pubkey.as_slice());
    encode_opt_bytes(out, &o.memo);
    assert(out@ =~= old(out)@ + enc_output(o@));
}

pub fn encode_inputs(out: &mut Vec<u8>, v: &Vec<TxInput>)
    ensures
        final(out)@ == old(out)@ + enc_inputs(inputs_view(v@)),
{
    let ghost s = inputs_view(v@);
    let ghost f = |i: TxInputModel| enc_input(i);
    push_u64_le(out, v.len() as u64);
    let ghost start = out@;
    let mut i: usize = 0;
    while i < v.len()
        invariant
            i <= v@.len(),
            s == inputs_view(v@),
            out@ == start + concat_map(s.take(i as int), f),
            f == (|i: TxInputModel| enc_input(i)),
        decreases v@.len() - i,
    {
        encode_input(out, &v[i]);
        proof {
            lemma_concat_map_step(s, f, i as int);
            assert(s[i as int] == v@[i as int]@);
        }
        i = i + 1;
        assert(out@ =~= start + concat_map(s.take(i as int), f));
    }
    assert(s.take(v@.len() as int) =~= s);
    assert(out@ =~= old(out)@ + enc_inputs(s));
}

pub fn encode_outputs(out: &mut Vec<u8>, v: &Vec<TxOutput>)
    ensures
        final(out)@ == old(out)@ + enc_outputs(outputs_view(v@)),
{
    let ghost s = outputs_view(v@);
    let ghost f = |o: TxOutputModel| enc_output(o);
    push_u64_le(out, v.len() as u64);
    let ghost start = out@;
    let mut i: usize = 0;
    while i < v.len()
        invariant
            i <= v@.len(),
            s == outputs_view(v@),
            out@ == start + concat_map(s.take(i as int), f),
            f == (|o: TxOutputModel| enc_output(o)),
        decreases v@.len() - i,
    {
        encode_output(out, &v[i]);
        proof {
            lemma_concat_map_step(s, f, i as int);
            assert(s[i as int] == v@[i as int]@);
        }
        i = i + 1;
        assert(out@ =~= start + concat_map(s.take(i as int), f));
    }
    assert(s.take(v@.len() as int) =~= s);
    assert(out@ =~= old(out)@ + enc_outputs(s));
}

pub fn proposal_type_code(t: ProposalType) -> (r: u32)
    ensures
        r == proposal_type_tag(t),
{
    match t {
        ProposalType::ParameterChange => 0,
        ProposalType::ProtocolUpgrade => 1,
        ProposalType::TreasurySpend => 2,
        ProposalType::BugFix => 3,
        ProposalType::CommunityFund => 4,
    }
}

pub fn voter_type_code(t: VoterType) -> (r: u32)
    ensures
        r == voter_type_tag(t),
{
    match t {
        VoterType::PosTicket => 0,
        VoterType::Masternode => 1,
    }
}

pub fn vote_choice_code(c: VoteChoice) -> (r: u32)
    ensures
        r == vote_choice_tag(c),
{
    match c {
        VoteChoice::Yes => 0,
        VoteChoice::No => 1,
        VoteChoice::Abstain => 2,
    }
}

/// The canonical encoding of a transaction.
pub fn encode_transaction(tx: &Transaction) -> (r: Vec<u8>)
    ensures
        r@ == enc_transaction(tx@),
{
    let mut out: Vec<u8> = Vec::new();
    match tx {
        Transaction::Standard { version, inputs, outputs, lock_time, fee, witness } => {
            push_u32_le(&mut out, 0);
            push_u32_le(&mut out, *version);
            encode_inputs(&mut out, inputs);
            encode_outputs(&mut out, outputs);
            push_u32_le(&mut out, *lock_time);
            push_u64_le(&mut out, *fee);
            encode_byte_lists(&mut out, witness);
        },
        Transaction::Coinbase { version, inputs, outputs, lock_time, witness } => {
            push_u32_le(&mut out, 1);
            push_u32_le(&mut out, *version);
            encode_inputs(&mut out, inputs);
            encode_outputs(&mut out, outputs);
            push_u32_le(&mut out, *lock_time);
            encode_byte_lists(&mut out, witness);
        },
        Transaction::TicketPurchase {
            version,
            inputs,
            outputs,
            ticket_id,
            locked_amount,
            lock_time,
            fee,
            ticket_address,
            witness,
        } => {
            push_u32_le(&mut out, 2);
            push_u32_le(&mut out, *version);
            encode_inputs(&mut out, inputs);
            encode_outputs(&mut out, outputs);
            encode_hash(&mut out, ticket_id);
            push_u64_le(&mut out, *locked_amount);
            push_u32_le(&mut out, *lock_time);
            push_u64_le(&mut out, *fee);
            encode_bytes(&mut out, ticket_address.as_slice());
            encode_byte_lists(&mut out, witness);
        },
        Transaction::TicketRedemption { version, inputs, outputs, ticket_id, lock_time, fee, witness } => {
            push_u32_le(&mut out, 3);
            push_u32_le(&mut out, *version);
            encode_inputs(&mut out, inputs);
            encode_outputs(&mut out, outputs);
            encode_hash(&mut out, ticket_id);
            push_u32_le(&mut out, *lock_time);
            push_u64_le(&mut out, *fee);
            encode_byte_lists(&mut out, witness);
        },
        Transaction::MasternodeRegister {
            masternode_identity,
            signature,
            lock_time,
            inputs,
            outputs,
            witness,
        } => {
            push_u32_le(&mut out, 4);
            encode_outpoint(&mut out, &masternode_identity.collateral_outpoint);
            encode_hash(&mut out, &masternode_identity.operator_public_key);
            encode_hash(&mut out, &masternode_identity.collateral_ownership_public_key);
            encode_bytes(&mut out, masternode_identity.network_address.as_slice());
            encode_bytes(&mut out, signature.as_slice());
            push_u32_le(&mut out, *lock_time);
            encode_inputs(&mut out, inputs);
            encode_outputs(&mut out, outputs);
            encode_byte_lists(&mut out, witness);
        },
        Transaction::GovernanceProposal(p) => {
            push_u32_le(&mut out, 5);
            encode_hash(&mut out, &p.proposal_id);
            encode_hash(&mut out, &p.proposer_address);
            push_u64_le(&mut out, p.start_block_height);
            push_u64_le(&mut out, p.end_block_height);
            encode_hash(&mut out, &p.description_hash);
            encode_bytes(&mut out, p.proposer_signature.as_slice());
            encode_inputs(&mut out, &p.inputs);
            encode_outputs(&mut out, &p.outputs);
            push_u32_le(&mut out, p.lock_time);
            push_u64_le(&mut out, p.fee);
            encode_text(&mut out, p.title.as_str());
            push_u32_le(&mut out, proposal_type_code(p.proposal_type));
            encode_opt_text(&mut out, &p.target_parameter);
            encode_opt_text(&mut out, &p.new_value);
        },
        Transaction::GovernanceVote(v) => {
            push_u32_le(&mut out, 6);
            encode_hash(&mut out, &v.proposal_id);
            encode_hash(&mut out, &v.voter_id);
            push_u32_le(&mut out, vote_choice_code(v.vote_choice));
            encode_bytes(&mut out, v.voter_signature.as_slice());
            encode_inputs(&mut out, &v.inputs);
            encode_outputs(&mut out, &v.outputs);
            push_u32_le(&mut out, v.lock_time);
            push_u64_le(&mut out, v.fee);
            push_u32_le(&mut out, voter_type_code(v.voter_type));
        },
    }
    proof {
        reveal(enc_transaction);
    }
    assert(out@ =~= enc_transaction(tx@));
    out
}

impl Transaction {
    /// The identity of the transaction: the BLAKE3 digest of its encoding.
    pub fn txid(&self) -> (r: [u8; 32])
        ensures
            r == spec_txid(self@),
    {
        let bytes = encode_transaction(self);
        blake3_hash(bytes.as_slice())
    }

    /// The number of bytes of the transaction's encoding.
    pub fn encoded_size(&self) -> (r: usize)
        ensures
            r == enc_transaction(self@).len(),
    {
        encode_transaction(self).len()
    }
}

/// The canonical encoding of a block header.
pub open spec fn enc_header(h: BlockHeader) -> Seq<u8> {
    u32_le(h.version) + h.previous_block_hash@ + h.merkle_root@ + u64_le(h.timestamp) + u32_le(
        h.bits,
    ) + u64_le(h.nonce) + u64_le(h.height) + u32_le(h.difficulty_target) + h.state_root@
}

pub fn encode_header(out: &mut Vec<u8>, h: &BlockHeader)
    ensures
        final(out)@ == old(out)@ + enc_header(*h),
{
    let ghost o0 = out@;
    push_u32_le(out, h.version);
    encode_hash(out, &h.previous_block_hash);
    let ghost p1 = u32_le(h.version) + h.previous_block_hash@;
    assert(out@ =~= o0 + p1);
    encode_hash(out, &h.merkle_root);
    let ghost p2 = p1 + h.merkle_root@;
    assert(out@ =~= o0 + p2);
    push_u64_le(out, h.timestamp);
    let ghost p3 = p2 + u64_le(h.timestamp);
    assert(out@ =~= o0 + p3);
    push_u32_le(out, h.bits);
    let ghost p4 = p3 + u32_le(h.bits);
    assert(out@ =~= o0 + p4);
    push_u64_le(out, h.nonce);
    let ghost p5 = p4 + u64_le(h.nonce);
    assert(out@ =~= o0 + p5);
    push_u64_le(out, h.height);
    let ghost p6 = p5 + u64_le(h.height);
    assert(out@ =~= o0 + p6);
    push_u32_le(out, h.difficulty_target);
    let ghost p7 = p6 + u32_le(h.difficulty_target);
    assert(out@ =~= o0 + p7);
    encode_hash(out, &h.state_root);
    let ghost p8 = p7 + h.state_root@;
    assert(out@ =~= o0 + p8);
    assert(p8 == enc_header(*h));
}

/// The identity of a header: the BLAKE3 digest of its encoding.
pub open spec fn spec_header_hash(h: BlockHeader) -> [u8; 32] {
    blake3_digest(enc_header(h))
}

impl BlockHeader {
    /// The identity of the header: the BLAKE3 digest of its encoding.
    pub fn hash(&self) -> (r: [u8; 32])
        ensures
            r == spec_header_hash(*self),
    {
        let mut out: Vec<u8> = Vec::new();
        encode_header(&mut out, self);
        blake3_hash(out.as_slice())
    }

}

pub open spec fn enc_vote(v: TicketVote) -> Seq<u8> {
    v.ticket_id@ + v.block_hash@ + seq![v.vote] + enc_bytes(v.signature@)
}

pub open spec fn enc_votes(s: Seq<TicketVote>) -> Seq<u8> {
    u64_le(s.len() as u64) + concat_map(s, |v: TicketVote| enc_vote(v))
}

pub open spec fn enc_transactions(s: Seq<TransactionModel>) -> Seq<u8> {
    u64_le(s.len() as u64) + concat_map(s, |t: TransactionModel| enc_transaction(t))
}

pub open spec fn transactions_view(s: Seq<Transaction>) -> Seq<TransactionModel> {
    s.map_values(|t: Transaction| t@)
}

/// The canonical encoding of a block.
pub open spec fn enc_block(b: Block) -> Seq<u8> {
    enc_header(b.header) + enc_transactions(transactions_view(b.transactions@)) + enc_votes(
        b.ticket_votes@,
    )
}

pub fn encode_vote(out: &mut Vec<u8>, v: &TicketVote)
    ensures
        final(out)@ == old(out)@ + enc_vote(*v),
{
    encode_hash(out, &v.ticket_id);
    encode_hash(out, &v.block_hash);
    out.push(v.vote);
    encode_bytes(out, v.signature.as_slice());
    assert(out@ =~= old(out)@ + enc_vote(*v));
}

/// The canonical encoding of a block.
pub fn encode_block(b: &Block) -> (r: Vec<u8>)
    ensures
        r@ == enc_block(*b),
{
    let mut out: Vec<u8> = Vec::new();
    encode_header(&mut out, &b.header);
    let ghost s = transactions_view(b.transactions@);
    let ghost f = |t: TransactionModel| enc_transaction(t);
    push_u64_le(&mut out, b.transactions.len() as u64);
    let ghost start = out@;
    let mut i: usize = 0;
    while i < b.transactions.len()
        invariant
            i <= b.transactions@.len(),
            s == transactions_view(b.transactions@),
            out@ == start + concat_map(s.take(i as int), f),
            f == (|t: TransactionModel| enc_transaction(t)),
        decreases b.transactions@.len() - i,
    {
        let e = encode_transaction(&b.transactions[i]);
        extend_bytes(&mut out, e.as_slice());
        proof {
            lemma_concat_map_step(s, f, i as int);
            assert(s[i as int] == b.transactions@[i as int]@);
        }
        i = i + 1;
        assert(out@ =~= start + concat_map(s.take(i as int), f));
    }
    assert(s.take(b.transactions@.len() as int) =~= s);
    let ghost mid = out@;
    let ghost g = |v: TicketVote| enc_vote(v);
    let ghost vs = b.ticket_votes@;
    push_u64_le(&mut out, b.ticket_votes.len() as u64);
    let ghost start2 = out@;
    let mut j: usize = 0;
    while j < b.ticket_votes.len()
        invariant
            j <= vs.len(),
            vs == b.ticket_votes@,
            out@ == start2 + concat_map(vs.take(j as int), g),
            g == (|v: TicketVote| enc_vote(v)),
        decreases vs.len() - j,
    {
        encode_vote(&mut out, &b.ticket_votes[j]);
        proof {
            lemma_concat_map_step(vs, g, j as int);
        }
        j = j + 1;
        assert(out@ =~= start2 + concat_map(vs.take(j as int), g));
    }
    assert(vs.take(vs.len() as int) =~= vs);
    assert(out@ =~= enc_block(*b));
    out
}

impl Block {
    /// The identity of the block: the hash of its header.
    pub fn hash(&self) -> (r: [u8; 32])
        ensures
            r == spec_header_hash(self.header),
    {
        self.header.hash()
    }
}

} // verus!
