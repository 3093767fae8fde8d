//! The stack machine that runs scripts: its state, and the effect of each stack, splice,
//! bitwise, hashing and flow-control instruction on that state.
use vstd::prelude::*;
use crate::bytes::{copy_bytes, copy_range, le_value, lemma_le_value_bound, lemma_pow256_mono, lemma_pow256_values, pow256, u64_le, push_u64_le, u32_le};
use crate::crypto::{decode_public_key, decode_signature, ed25519_point_decompresses, ed25519_verifies, ed25519_verify, ripemd160, ripemd160_digest, sha1, sha1_digest, sha256, sha256_digest, signature_decodes};
use crate::script::opcode::{spec_opcode, Opcode};
use crate::script::sighash::{calculate_sighash, spec_sighash};
use crate::types::Transaction;
use crate::types::byte_lists;

verus! {

/// Why a script failed.
#[derive(Debug, Clone, Copy, PartialEq, Eq, Structural)]
pub enum ScriptError {
    InvalidOpcode,
    StackUnderflow,
    StackOverflow,
    InvalidStackState,
    ScriptTooLarge,
    TooManyOpcodes,
    TooManySigOps,
    TooManyOperations,
    VerificationFailed,
    OpReturn,
    NotImplemented,
}

/// A script: a sequence of bytes.
#[derive(Debug, Clone)]
pub struct Script {
    pub bytes: Vec<u8>,
}

impl Script {
    pub fn new(bytes: Vec<u8>) -> (r: Script)
        ensures
            r.bytes == bytes,
    {
        Script { bytes }
    }

    /// A script holding a copy of `bytes`.
    pub fn from_slice(bytes: &[u8]) -> (r: Script)
        ensures
            r.bytes@ == bytes@,
    {
        Script { bytes: copy_bytes(bytes) }
    }

    pub fn as_bytes(&self) -> (r: &[u8])
        ensures
            r@ == self.bytes@,
    {
        self.bytes.as_slice()
    }
}

/// The state of the machine: main and alternate stacks, the instruction and signature
/// operation counters, the branch conditions of the open `IF`s and the depth of skipped
/// branches.
pub struct EngineModel {
    pub stack: Seq<Seq<u8>>,
    pub alt_stack: Seq<Seq<u8>>,
    pub opcode_count: nat,
    pub sig_op_count: nat,
    pub control_stack: Seq<bool>,
    pub skip_depth: nat,
}

impl EngineModel {
    pub open spec fn with_stack(self, s: Seq<Seq<u8>>) -> EngineModel {
        EngineModel {
            stack: s,
            alt_stack: self.alt_stack,
            opcode_count: self.opcode_count,
            sig_op_count: self.sig_op_count,
            control_stack: self.control_stack,
            skip_depth: self.skip_depth,
        }
    }

    pub open spec fn with_stacks(self, s: Seq<Seq<u8>>, alt: Seq<Seq<u8>>) -> EngineModel {
        EngineModel {
            stack: s,
            alt_stack: alt,
            opcode_count: self.opcode_count,
            sig_op_count: self.sig_op_count,
            control_stack: self.control_stack,
            skip_depth: self.skip_depth,
        }
    }

    pub open spec fn with_control(self, c: Seq<bool>, d: nat) -> EngineModel {
        EngineModel {
            stack: self.stack,
            alt_stack: self.alt_stack,
            opcode_count: self.opcode_count,
            sig_op_count: self.sig_op_count,
            control_stack: c,
            skip_depth: d,
        }
    }

    pub open spec fn with_sig_ops(self, n: nat) -> EngineModel {
        EngineModel {
            stack: self.stack,
            alt_stack: self.alt_stack,
            opcode_count: self.opcode_count,
            sig_op_count: n,
            control_stack: self.control_stack,
            skip_depth: self.skip_depth,
        }
    }

    pub open spec fn with_opcode_count(self, n: nat) -> EngineModel {
        EngineModel {
            stack: self.stack,
            alt_stack: self.alt_stack,
            opcode_count: n,
            sig_op_count: self.sig_op_count,
            control_stack: self.control_stack,
            skip_depth: self.skip_depth,
        }
    }

    /// A machine with empty stacks and zero counters.
    pub open spec fn initial() -> EngineModel {
        EngineModel {
            stack: Seq::empty(),
            alt_stack: Seq::empty(),
            opcode_count: 0,
            sig_op_count: 0,
            control_stack: Seq::empty(),
            skip_depth: 0,
        }
    }

    /// The machine made ready for a new script: stacks and counters cleared, except the
    /// signature operation counter, which is carried across the inputs of a transaction.
    pub open spec fn reset(self) -> EngineModel {
        EngineModel {
            stack: Seq::empty(),
            alt_stack: Seq::empty(),
            opcode_count: 0,
            sig_op_count: self.sig_op_count,
            control_stack: Seq::empty(),
            skip_depth: 0,
        }
    }
}

/// What one instruction does: the machine after it, and whether it succeeded.
pub type Outcome = (EngineModel, Result<(), ScriptError>);

/// A stack item that counts as false: empty, or a single zero byte.
pub open spec fn spec_is_false(v: Seq<u8>) -> bool {
    v.len() == 0 || (v.len() == 1 && v[0] == 0)
}

/// The byte string pushed for true.
pub open spec fn true_item() -> Seq<u8> {
    seq![1u8]
}

/// Pops the top `k` items (every item when fewer are there) and pushes `f` of the popped
/// ones, listed bottom first.
pub open spec fn spec_rearrange(
    m: EngineModel,
    k: nat,
    f: spec_fn(Seq<Seq<u8>>) -> Seq<Seq<u8>>,
) -> Outcome {
    if m.stack.len() < k {
        (m.with_stack(Seq::empty()), Err(ScriptError::StackUnderflow))
    } else {
        let n = m.stack.len() - k;
        (m.with_stack(m.stack.take(n) + f(m.stack.skip(n))), Ok(()))
    }
}

pub open spec fn spec_op_dup(m: EngineModel) -> Outcome {
    spec_rearrange(m, 1, |t: Seq<Seq<u8>>| seq![t[0], t[0]])
}

pub open spec fn spec_op_drop(m: EngineModel) -> Outcome {
    spec_rearrange(m, 1, |t: Seq<Seq<u8>>| Seq::<Seq<u8>>::empty())
}

pub open spec fn spec_op_nip(m: EngineModel) -> Outcome {
    spec_rearrange(m, 2, |t: Seq<Seq<u8>>| seq![t[1]])
}

pub open spec fn spec_op_over(m: EngineModel) -> Outcome {
    spec_rearrange(m, 2, |t: Seq<Seq<u8>>| seq![t[0], t[1], t[0]])
}

pub open spec fn spec_op_rot(m: EngineModel) -> Outcome {
    spec_rearrange(m, 3, |t: Seq<Seq<u8>>| seq![t[1], t[2], t[0]])
}

pub open spec fn spec_op_swap(m: EngineModel) -> Outcome {
    spec_rearrange(m, 2, |t: Seq<Seq<u8>>| seq![t[1], t[0]])
}

pub open spec fn spec_op_tuck(m: EngineModel) -> Outcome {
    spec_rearrange(m, 2, |t: Seq<Seq<u8>>| seq![t[1], t[0], t[1]])
}

pub open spec fn spec_op_2drop(m: EngineModel) -> Outcome {
    spec_rearrange(m, 2, |t: Seq<Seq<u8>>| Seq::<Seq<u8>>::empty())
}

pub open spec fn spec_op_2dup(m: EngineModel) -> Outcome {
    spec_rearrange(m, 2, |t: Seq<Seq<u8>>| seq![t[0], t[1], t[0], t[1]])
}

pub open spec fn spec_op_3dup(m: EngineModel) -> Outcome {
    spec_rearrange(m, 3, |t: Seq<Seq<u8>>| seq![t[0], t[1], t[2], t[0], t[1], t[2]])
}

pub open spec fn spec_op_2over(m: EngineModel) -> Outcome {
    spec_rearrange(m, 4, |t: Seq<Seq<u8>>| seq![t[0], t[1], t[2], t[3], t[0], t[1]])
}

pub open spec fn spec_op_2rot(m: EngineModel) -> Outcome {
    spec_rearrange(m, 6, |t: Seq<Seq<u8>>| seq![t[2], t[3], t[4], t[5], t[0], t[1]])
}

pub open spec fn spec_op_2swap(m: EngineModel) -> Outcome {
    spec_rearrange(m, 4, |t: Seq<Seq<u8>>| seq![t[2], t[3], t[0], t[1]])
}

pub open spec fn spec_op_equal(m: EngineModel) -> Outcome {
    spec_rearrange(
        m,
        2,
        |t: Seq<Seq<u8>>|
            seq![
                if t[0] == t[1] {
                    true_item()
                } else {
                    Seq::<u8>::empty()
                },
            ],
    )
}

pub open spec fn spec_op_cat(m: EngineModel) -> Outcome {
    spec_rearrange(m, 2, |t: Seq<Seq<u8>>| seq![t[0] + t[1]])
}

pub open spec fn spec_op_size(m: EngineModel) -> Outcome {
    spec_rearrange(m, 1, |t: Seq<Seq<u8>>| seq![t[0], u64_le(t[0].len() as u64)])
}

pub open spec fn invert_bytes(a: Seq<u8>) -> Seq<u8> {
    Seq::new(a.len(), |i: int| !a[i])
}

pub open spec fn spec_op_invert(m: EngineModel) -> Outcome {
    spec_rearrange(m, 1, |t: Seq<Seq<u8>>| seq![invert_bytes(t[0])])
}

pub open spec fn spec_op_ripemd160(m: EngineModel) -> Outcome {
    spec_rearrange(m, 1, |t: Seq<Seq<u8>>| seq![ripemd160_digest(t[0])])
}

pub open spec fn spec_op_sha1(m: EngineModel) -> Outcome {
    spec_rearrange(m, 1, |t: Seq<Seq<u8>>| seq![sha1_digest(t[0])])
}

pub open spec fn spec_op_sha256(m: EngineModel) -> Outcome {
    spec_rearrange(m, 1, |t: Seq<Seq<u8>>| seq![sha256_digest(t[0])])
}

/// `RIPEMD160(SHA256(x))`.
pub open spec fn hash160(x: Seq<u8>) -> Seq<u8> {
    ripemd160_digest(sha256_digest(x))
}

pub open spec fn spec_op_hash160(m: EngineModel) -> Outcome {
    spec_rearrange(m, 1, |t: Seq<Seq<u8>>| seq![hash160(t[0])])
}

pub open spec fn spec_op_hash256(m: EngineModel) -> Outcome {
    spec_rearrange(m, 1, |t: Seq<Seq<u8>>| seq![sha256_digest(sha256_digest(t[0]))])
}

/// Pops the top item and fails when it counts as false.
pub open spec fn spec_op_verify(m: EngineModel) -> Outcome {
    if m.stack.len() == 0 {
        (m, Err(ScriptError::StackUnderflow))
    } else if spec_is_false(m.stack.last()) {
        (m.with_stack(m.stack.drop_last()), Err(ScriptError::VerificationFailed))
    } else {
        (m.with_stack(m.stack.drop_last()), Ok(()))
    }
}

/// `OP_EQUAL` then `OP_VERIFY`.
pub open spec fn spec_op_equal_verify(m: EngineModel) -> Outcome {
    let (m1, r1) = spec_op_equal(m);
    if r1 is Err {
        (m1, r1)
    } else {
        spec_op_verify(m1)
    }
}

pub open spec fn spec_op_toaltstack(m: EngineModel) -> Outcome {
    if m.stack.len() == 0 {
        (m, Err(ScriptError::StackUnderflow))
    } else {
        (m.with_stacks(m.stack.drop_last(), m.alt_stack.push(m.stack.last())), Ok(()))
    }
}

pub open spec fn spec_op_fromaltstack(m: EngineModel) -> Outcome {
    if m.alt_stack.len() == 0 {
        (m, Err(ScriptError::StackUnderflow))
    } else {
        (m.with_stacks(m.stack.push(m.alt_stack.last()), m.alt_stack.drop_last()), Ok(()))
    }
}

/// A stack item read as a little-endian count; items longer than eight bytes are refused.
pub open spec fn spec_as_usize(v: Seq<u8>) -> Result<usize, ScriptError> {
    if v.len() <= 8 {
        Ok(le_value(v) as usize)
    } else {
        Err(ScriptError::InvalidStackState)
    }
}

/// A stack item read as a little-endian `u32`; items longer than four bytes are refused.
pub open spec fn spec_as_u32(v: Seq<u8>) -> Result<u32, ScriptError> {
    if v.len() <= 4 {
        Ok(le_value(v) as u32)
    } else {
        Err(ScriptError::InvalidStackState)
    }
}

/// Pops a count `n` and copies the item `n` places below the top onto the top.
pub open spec fn spec_op_pick(m: EngineModel) -> Outcome {
    if m.stack.len() == 0 {
        (m, Err(ScriptError::StackUnderflow))
    } else {
        let s = m.stack.drop_last();
        match spec_as_usize(m.stack.last()) {
            Err(e) => (m.with_stack(s), Err(e)),
            Ok(n) => if n >= s.len() {
                (m.with_stack(s), Err(ScriptError::StackUnderflow))
            } else {
                (m.with_stack(s.push(s[s.len() - n - 1])), Ok(()))
            },
        }
    }
}

/// Pops a count `n` and moves the item `n` places below the top onto the top.
pub open spec fn spec_op_roll(m: EngineModel) -> Outcome {
    if m.stack.len() == 0 {
        (m, Err(ScriptError::StackUnderflow))
    } else {
        let s = m.stack.drop_last();
        match spec_as_usize(m.stack.last()) {
            Err(e) => (m.with_stack(s), Err(e)),
            Ok(n) => if n >= s.len() {
                (m.with_stack(s), Err(ScriptError::StackUnderflow))
            } else {
                let j = s.len() - n - 1;
                (m.with_stack(s.remove(j).push(s[j])), Ok(()))
            },
        }
    }
}

/// Pops a size, an offset and a byte string, and pushes the part of the string at that
/// offset of that size.
pub open spec fn spec_op_substr(m: EngineModel) -> Outcome {
    let st = m.stack;
    if st.len() == 0 {
        (m, Err(ScriptError::StackUnderflow))
    } else {
        match spec_as_usize(st.last()) {
            Err(e) => (m.with_stack(st.drop_last()), Err(e)),
            Ok(size) => {
                let s1 = st.drop_last();
                if s1.len() == 0 {
                    (m.with_stack(s1), Err(ScriptError::StackUnderflow))
                } else {
                    match spec_as_usize(s1.last()) {
                        Err(e) => (m.with_stack(s1.drop_last()), Err(e)),
                        Ok(offset) => {
                            let s2 = s1.drop_last();
                            if s2.len() == 0 {
                                (m.with_stack(s2), Err(ScriptError::StackUnderflow))
                            } else {
                                let data = s2.last();
                                let s3 = s2.drop_last();
                                if offset + size > data.len() {
                                    (m.with_stack(s3), Err(ScriptError::InvalidStackState))
                                } else {
                                    (
                                        m.with_stack(
                                            s3.push(data.subrange(offset as int, offset + size)),
                                        ),
                                        Ok(()),
                                    )
                                }
                            }
                        },
                    }
                }
            },
        }
    }
}

/// Pops a size and a byte string and pushes the first (`left`) or last bytes of it.
pub open spec fn spec_op_left_right(m: EngineModel, left: bool) -> Outcome {
    let st = m.stack;
    if st.len() == 0 {
        (m, Err(ScriptError::StackUnderflow))
    } else {
        match spec_as_usize(st.last()) {
            Err(e) => (m.with_stack(st.drop_last()), Err(e)),
            Ok(size) => {
                let s1 = st.drop_last();
                if s1.len() == 0 {
                    (m.with_stack(s1), Err(ScriptError::StackUnderflow))
                } else {
                    let data = s1.last();
                    let s2 = s1.drop_last();
                    if size > data.len() {
                        (m.with_stack(s2), Err(ScriptError::InvalidStackState))
                    } else if left {
                        (m.with_stack(s2.push(data.take(size as int))), Ok(()))
                    } else {
                        (m.with_stack(s2.push(data.skip(data.len() - size))), Ok(()))
                    }
                }
            },
        }
    }
}

pub open spec fn spec_op_left(m: EngineModel) -> Outcome {
    spec_op_left_right(m, true)
}

pub open spec fn spec_op_right(m: EngineModel) -> Outcome {
    spec_op_left_right(m, false)
}

/// Which bitwise operation combines two equally long byte strings.
pub enum BitOp {
    And,
    Or,
    Xor,
}

pub open spec fn spec_bitop_byte(op: BitOp, x: u8, y: u8) -> u8 {
    match op {
        BitOp::And => x & y,
        BitOp::Or => x | y,
        BitOp::Xor => x ^ y,
    }
}

pub open spec fn spec_bitwise(op: BitOp, a: Seq<u8>, b: Seq<u8>) -> Seq<u8> {
    Seq::new(a.len(), |i: int| spec_bitop_byte(op, a[i], b[i]))
}

/// Pops two byte strings and pushes their byte-wise combination; their lengths must agree.
pub open spec fn spec_op_bitwise(m: EngineModel, op: BitOp) -> Outcome {
    let st = m.stack;
    if st.len() < 2 {
        (m.with_stack(Seq::empty()), Err(ScriptError::StackUnderflow))
    } else {
        let b = st.last();
        let a = st.drop_last().last();
        let s = st.drop_last().drop_last();
        if a.len() != b.len() {
            (m.with_stack(s), Err(ScriptError::InvalidStackState))
        } else {
            (m.with_stack(s.push(spec_bitwise(op, a, b))), Ok(()))
        }
    }
}

/// `OP_IF` (`negate == false`) and `OP_NOTIF` (`negate == true`).
pub open spec fn spec_op_if(m: EngineModel, negate: bool) -> Outcome {
    if m.skip_depth > 0 {
        (m.with_control(m.control_stack, m.skip_depth + 1), Ok(()))
    } else {
        let (s, cond) = if m.stack.len() == 0 {
            (m.stack, false)
        } else if negate {
            (m.stack.drop_last(), spec_is_false(m.stack.last()))
        } else {
            (m.stack.drop_last(), !spec_is_false(m.stack.last()))
        };
        let m1 = m.with_stack(s);
        (m1.with_control(m.control_stack.push(cond), if cond { 0 } else { 1 }), Ok(()))
    }
}

pub open spec fn spec_op_else(m: EngineModel) -> Outcome {
    if m.skip_depth > 0 {
        (m.with_control(m.control_stack, if m.skip_depth == 1 { 0 } else { m.skip_depth }), Ok(()))
    } else if m.control_stack.len() == 0 {
        (m, Err(ScriptError::InvalidStackState))
    } else {
        let c = !m.control_stack.last();
        (
            m.with_control(
                m.control_stack.update(m.control_stack.len() - 1, c),
                if c { 0 } else { 1 },
            ),
            Ok(()),
        )
    }
}

pub open spec fn spec_op_endif(m: EngineModel) -> Outcome {
    if m.skip_depth > 0 {
        (m.with_control(m.control_stack, (m.skip_depth - 1) as nat), Ok(()))
    } else if m.control_stack.len() == 0 {
        (m, Err(ScriptError::InvalidStackState))
    } else {
        (m.with_control(m.control_stack.drop_last(), 0), Ok(()))
    }
}

/// Whether bytes decode as an Ed25519 public key.
pub open spec fn key_decodes(k: Seq<u8>) -> bool {
    k.len() == 32 && ed25519_point_decompresses(k)
}

/// `OP_CHECKSIG`: pops a public key and a signature and pushes whether the signature signs
/// the input's message under that key; undecodable keys or signatures fail the script.
pub open spec fn spec_op_checksig(m: EngineModel, tx: Transaction, index: int, script_pubkey: Seq<u8>) -> Outcome {
    let m1 = m.with_sig_ops(m.sig_op_count + 1);
    let st = m1.stack;
    if st.len() == 0 {
        (m1, Err(ScriptError::StackUnderflow))
    } else if st.len() == 1 {
        (m1.with_stack(Seq::empty()), Err(ScriptError::StackUnderflow))
    } else {
        let pk = st.last();
        let sig = st.drop_last().last();
        let s2 = st.drop_last().drop_last();
        let m2 = m1.with_stack(s2);
        if !key_decodes(pk) || !signature_decodes(sig) || index >= tx.spec_inputs().len() {
            (m2, Err(ScriptError::VerificationFailed))
        } else {
            let ok = ed25519_verifies(pk, spec_sighash(tx, index, script_pubkey)@, sig);
            (m2.with_stack(s2.push(if ok { true_item() } else { Seq::empty() })), Ok(()))
        }
    }
}

/// Whether `sig` verifies under one of `keys[j..]`, trying them in order; a signature or a
/// key that does not decode aborts the search.
pub open spec fn sig_matches_from(sig: Seq<u8>, keys: Seq<Seq<u8>>, msg: Seq<u8>, j: int) -> Result<bool, ()>
    decreases keys.len() - j,
{
    if j >= keys.len() || j < 0 {
        Ok(false)
    } else if !signature_decodes(sig) || !key_decodes(keys[j]) {
        Err(())
    } else if ed25519_verifies(keys[j], msg, sig) {
        Ok(true)
    } else {
        sig_matches_from(sig, keys, msg, j + 1)
    }
}

/// How many of the first `i` signatures verify under some key, unless a decoding failure
/// aborts the count.
pub open spec fn count_verified(sigs: Seq<Seq<u8>>, keys: Seq<Seq<u8>>, msg: Seq<u8>, i: nat) -> Result<nat, ()>
    decreases i,
{
    if i == 0 {
        Ok(0)
    } else {
        match count_verified(sigs, keys, msg, (i - 1) as nat) {
            Err(_) => Err(()),
            Ok(c) => match sig_matches_from(sigs[i - 1], keys, msg, 0) {
                Err(_) => Err(()),
                Ok(b) => Ok(c + if b { 1nat } else { 0nat }),
            },
        }
    }
}

/// The top `n` items of a stack, top first.
pub open spec fn top_first(s: Seq<Seq<u8>>, n: nat) -> Seq<Seq<u8>> {
    Seq::new(n, |i: int| s[s.len() - 1 - i])
}

/// `OP_CHECKMULTISIG`: pops a key count `N`, `N` keys, a signature count `M`, `M` signatures
/// and one unused item, and pushes whether at least `M` of the signatures each verify
/// under one of the keys. A count item that is empty fails the script.
pub open spec fn spec_op_checkmultisig(m: EngineModel, tx: Transaction, index: int, script_pubkey: Seq<u8>) -> Outcome {
    let m1 = m.with_sig_ops(m.sig_op_count + 1);
    let st = m1.stack;
    if st.len() == 0 {
        (m1, Err(ScriptError::StackUnderflow))
    } else if st.last().len() == 0 {
        (m1.with_stack(st.drop_last()), Err(ScriptError::InvalidStackState))
    } else {
        let n = st.last()[0] as nat;
        let s1 = st.drop_last();
        if n > s1.len() {
            (m1.with_stack(s1), Err(ScriptError::StackUnderflow))
        } else {
            let keys = top_first(s1, n);
            let s2 = s1.take(s1.len() - n);
            if s2.len() == 0 {
                (m1.with_stack(s2), Err(ScriptError::StackUnderflow))
            } else if s2.last().len() == 0 {
                (m1.with_stack(s2.drop_last()), Err(ScriptError::InvalidStackState))
            } else {
                let k = s2.last()[0] as nat;
                let s3 = s2.drop_last();
                if k > s3.len() {
                    (m1.with_stack(s3), Err(ScriptError::StackUnderflow))
                } else {
                    let sigs = top_first(s3, k);
                    let s4 = s3.take(s3.len() - k);
                    if s4.len() == 0 {
                        (m1.with_stack(s4), Err(ScriptError::StackUnderflow))
                    } else {
                        let s5 = s4.drop_last();
                        let m2 = m1.with_stack(s5);
                        if index >= tx.spec_inputs().len() {
                            (m2, Err(ScriptError::VerificationFailed))
                        } else {
                            match count_verified(sigs, keys, spec_sighash(tx, index, script_pubkey)@, k) {
                                Err(_) => (m2, Err(ScriptError::VerificationFailed)),
                                Ok(c) => (
                                    m2.with_stack(s5.push(if c >= k { true_item() } else { Seq::empty() })),
                                    Ok(()),
                                ),
                            }
                        }
                    }
                }
            }
        }
    }
}

/// An instruction followed by `OP_VERIFY`.
pub open spec fn then_verify(o: Outcome) -> Outcome {
    if o.1 is Err {
        o
    } else {
        spec_op_verify(o.0)
    }
}

/// The lock times below this are block heights; the others are timestamps.
pub const LOCKTIME_THRESHOLD: u32 = 500_000_000;

/// `OP_CHECKLOCKTIMEVERIFY`: pops a lock time and fails unless the transaction's lock time
/// is set, is at least the popped one, and the popped one has passed (as a height, or as a
/// time estimated at sixty seconds a block).
pub open spec fn spec_op_checklocktimeverify(m: EngineModel, tx: Transaction, height: u64) -> Outcome {
    if m.stack.len() == 0 {
        (m, Err(ScriptError::StackUnderflow))
    } else {
        let m1 = m.with_stack(m.stack.drop_last());
        match spec_as_u32(m.stack.last()) {
            Err(e) => (m1, Err(e)),
            Ok(lock_time) => {
                let tx_lock_time = tx.spec_lock_time();
                if tx_lock_time == 0 || lock_time > tx_lock_time {
                    (m1, Err(ScriptError::VerificationFailed))
                } else if lock_time < LOCKTIME_THRESHOLD {
                    if height < lock_time {
                        (m1, Err(ScriptError::VerificationFailed))
                    } else {
                        (m1, Ok(()))
                    }
                } else if height * 60 < lock_time {
                    (m1, Err(ScriptError::VerificationFailed))
                } else {
                    (m1, Ok(()))
                }
            },
        }
    }
}

/// `OP_CHECKSEQUENCEVERIFY`: pops a relative lock and fails unless the input's sequence
/// number meets it (low sixteen bits compared); a disable bit on either side passes.
pub open spec fn spec_op_checksequenceverify(m: EngineModel, tx: Transaction, index: int) -> Outcome {
    if m.stack.len() == 0 {
        (m, Err(ScriptError::StackUnderflow))
    } else {
        let m1 = m.with_stack(m.stack.drop_last());
        match spec_as_u32(m.stack.last()) {
            Err(e) => (m1, Err(e)),
            Ok(relative) => {
                if index >= tx.spec_inputs().len() {
                    (m1, Err(ScriptError::VerificationFailed))
                } else {
                    let sequence = tx.spec_inputs()[index].sequence;
                    if (sequence & 0x8000_0000u32) != 0 || (relative & 0x8000_0000u32) != 0 {
                        (m1, Ok(()))
                    } else if (sequence & 0xffffu32) < (relative & 0xffffu32) {
                        (m1, Err(ScriptError::VerificationFailed))
                    } else {
                        (m1, Ok(()))
                    }
                }
            },
        }
    }
}

/// A push of the `len` bytes that follow a little-endian length of `len_bytes` bytes.
pub open spec fn spec_push_n(m: EngineModel, script: Seq<u8>, ip: nat, len_bytes: nat) -> (EngineModel, nat, Result<(), ScriptError>) {
    if ip + len_bytes > script.len() {
        (m, ip, Err(ScriptError::ScriptTooLarge))
    } else {
        let len = le_value(script.subrange(ip as int, (ip + len_bytes) as int));
        let ip2 = ip + len_bytes;
        if ip2 + len > script.len() {
            (m, ip2, Err(ScriptError::ScriptTooLarge))
        } else {
            (m.with_stack(m.stack.push(script.subrange(ip2 as int, (ip2 + len) as int))), ip2 + len, Ok(()))
        }
    }
}

/// An instruction's outcome, the instruction pointer left where it was.
pub open spec fn at(o: Outcome, ip: nat) -> (EngineModel, nat, Result<(), ScriptError>) {
    (o.0, ip, o.1)
}

pub open spec fn push_const(m: EngineModel, v: Seq<u8>) -> Outcome {
    (m.with_stack(m.stack.push(v)), Ok(()))
}

/// What the transaction-dependent instructions consult: the spending transaction, the
/// input being checked, the locking script it satisfies and the current block height.
pub struct ScriptContext {
    pub tx: Transaction,
    pub input_index: int,
    pub script_pubkey: Seq<u8>,
    pub height: u64,
}

/// What one instruction does, with the instruction pointer after its operand bytes.
#[verifier::opaque]
pub open spec fn spec_dispatch(op: Opcode, m: EngineModel, script: Seq<u8>, ip: nat, c: ScriptContext) -> (EngineModel, nat, Result<(), ScriptError>) {
    match op {
        Opcode::Op0 => at(push_const(m, Seq::empty()), ip),
        Opcode::OpPushdata1 => spec_push_n(m, script, ip, 1),
        Opcode::OpPushdata2 => spec_push_n(m, script, ip, 2),
        Opcode::OpPushdata4 => spec_push_n(m, script, ip, 4),
        Opcode::Op1 => at(push_const(m, seq![1u8]), ip),
        Opcode::Op2 => at(push_const(m, seq![2u8]), ip),
        Opcode::Op3 => at(push_const(m, seq![3u8]), ip),
        Opcode::Op4 => at(push_const(m, seq![4u8]), ip),
        Opcode::Op5 => at(push_const(m, seq![5u8]), ip),
        Opcode::Op6 => at(push_const(m, seq![6u8]), ip),
        Opcode::Op7 => at(push_const(m, seq![7u8]), ip),
        Opcode::Op8 => at(push_const(m, seq![8u8]), ip),
        Opcode::Op9 => at(push_const(m, seq![9u8]), ip),
        Opcode::Op10 => at(push_const(m, seq![10u8]), ip),
        Opcode::Op11 => at(push_const(m, seq![11u8]), ip),
        Opcode::Op12 => at(push_const(m, seq![12u8]), ip),
        Opcode::Op13 => at(push_const(m, seq![13u8]), ip),
        Opcode::Op14 => at(push_const(m, seq![14u8]), ip),
        Opcode::Op15 => at(push_const(m, seq![15u8]), ip),
        Opcode::Op16 => at(push_const(m, seq![16u8]), ip),
        Opcode::OpDup => at(spec_op_dup(m), ip),
        Opcode::OpHash160 => at(spec_op_hash160(m), ip),
        Opcode::OpEqual => at(spec_op_equal(m), ip),
        Opcode::OpEqualverify => at(spec_op_equal_verify(m), ip),
        Opcode::OpVerify => at(spec_op_verify(m), ip),
        Opcode::OpCheckSig => at(spec_op_checksig(m, c.tx, c.input_index, c.script_pubkey), ip),
        Opcode::OpCheckMultiSig => at(spec_op_checkmultisig(m, c.tx, c.input_index, c.script_pubkey), ip),
        Opcode::OpCheckLockTimeVerify => at(spec_op_checklocktimeverify(m, c.tx, c.height), ip),
        Opcode::OpCheckSequenceVerify => at(spec_op_checksequenceverify(m, c.tx, c.input_index), ip),
        Opcode::OpReturn => (m, ip, Err(ScriptError::OpReturn)),
        Opcode::OpNop => (m, ip, Ok(())),
        Opcode::OpInvalidOpcode => (m, ip, Err(ScriptError::InvalidOpcode)),
        Opcode::OpRipemd160 => at(spec_op_ripemd160(m), ip),
        Opcode::OpSha1 => at(spec_op_sha1(m), ip),
        Opcode::OpSha256 => at(spec_op_sha256(m), ip),
        Opcode::OpHash256 => at(spec_op_hash256(m), ip),
        Opcode::OpCodeSeparator => (m, ip, Ok(())),
        Opcode::OpCheckSigVerify => at(then_verify(spec_op_checksig(m, c.tx, c.input_index, c.script_pubkey)), ip),
        Opcode::OpCheckMultiSigVerify => at(then_verify(spec_op_checkmultisig(m, c.tx, c.input_index, c.script_pubkey)), ip),
        Opcode::OpIf => at(spec_op_if(m, false), ip),
        Opcode::OpNotIf => at(spec_op_if(m, true), ip),
        Opcode::OpElse => at(spec_op_else(m), ip),
        Opcode::OpEndIf => at(spec_op_endif(m), ip),
        Opcode::OpToAltStack => at(spec_op_toaltstack(m), ip),
        Opcode::OpFromAltStack => at(spec_op_fromaltstack(m), ip),
        Opcode::OpDrop => at(spec_op_drop(m), ip),
        Opcode::OpNip => at(spec_op_nip(m), ip),
        Opcode::OpOver => at(spec_op_over(m), ip),
        Opcode::OpPick => at(spec_op_pick(m), ip),
        Opcode::OpRoll => at(spec_op_roll(m), ip),
        Opcode::OpRot => at(spec_op_rot(m), ip),
        Opcode::OpSwap => at(spec_op_swap(m), ip),
        Opcode::OpTuck => at(spec_op_tuck(m), ip),
        Opcode::Op2Drop => at(spec_op_2drop(m), ip),
        Opcode::Op2Dup => at(spec_op_2dup(m), ip),
        Opcode::Op3Dup => at(spec_op_3dup(m), ip),
        Opcode::Op2Over => at(spec_op_2over(m), ip),
        Opcode::Op2Rot => at(spec_op_2rot(m), ip),
        Opcode::Op2Swap => at(spec_op_2swap(m), ip),
        Opcode::OpCat => at(spec_op_cat(m), ip),
        Opcode::OpSubStr => at(spec_op_substr(m), ip),
        Opcode::OpLeft => at(spec_op_left(m), ip),
        Opcode::OpRight => at(spec_op_right(m), ip),
        Opcode::OpSize => at(spec_op_size(m), ip),
        Opcode::OpInvert => at(spec_op_invert(m), ip),
        Opcode::OpAnd => at(spec_op_bitwise(m, BitOp::And), ip),
        Opcode::OpOr => at(spec_op_bitwise(m, BitOp::Or), ip),
        Opcode::OpXor => at(spec_op_bitwise(m, BitOp::Xor), ip),
        Opcode::Unassigned => (m, ip, Err(ScriptError::InvalidOpcode)),
    }
}

/// The instruction limit of one script run.
pub const MAX_OPCODE_COUNT: usize = 200;

/// The stack depth above which a script fails.
pub const MAX_STACK_DEPTH: usize = 1000;

/// The largest script that runs.
pub const MAX_SCRIPT_BYTES: usize = 10_000;

/// The signature operations allowed to one transaction.
pub const MAX_SIG_OPS: usize = 20;

/// How the depth of skipped branches changes on an instruction met while skipping.
pub open spec fn spec_skip_adjust(op: Opcode, d: nat) -> nat {
    match op {
        Opcode::OpIf | Opcode::OpNotIf => d + 1,
        Opcode::OpElse => if d == 1 { 0 } else { d },
        Opcode::OpEndIf => (d - 1) as nat,
        _ => d,
    }
}

/// One step of a run at `ip` (which must be inside the script): the machine after it, the
/// next instruction pointer, and the failure that stops the run, if any.
pub open spec fn spec_step(m: EngineModel, script: Seq<u8>, ip: nat, c: ScriptContext) -> (EngineModel, nat, Option<ScriptError>) {
    if m.opcode_count >= MAX_OPCODE_COUNT {
        (m, ip, Some(ScriptError::TooManyOpcodes))
    } else {
        let op = spec_opcode(script[ip as int]);
        let m1 = m.with_opcode_count(m.opcode_count + 1);
        if m1.skip_depth > 0 {
            (m1.with_control(m1.control_stack, spec_skip_adjust(op, m1.skip_depth)), ip + 1, None)
        } else {
            let (m2, ip2, r) = spec_dispatch(op, m1, script, ip + 1, c);
            match r {
                Err(e) => (m2, ip2, Some(e)),
                Ok(_) => if m2.stack.len() > MAX_STACK_DEPTH {
                    (m2, ip2, Some(ScriptError::StackOverflow))
                } else {
                    (m2, ip2, None)
                },
            }
        }
    }
}

/// Runs the script from `ip` to its end or to the first failure.
pub open spec fn spec_run(m: EngineModel, script: Seq<u8>, ip: nat, c: ScriptContext) -> Outcome
    decreases script.len() - ip,
{
    if ip >= script.len() {
        (m, Ok(()))
    } else {
        let (m2, ip2, f) = spec_step(m, script, ip, c);
        match f {
            Some(e) => (m2, Err(e)),
            None => if ip < ip2 <= script.len() {
                spec_run(m2, script, ip2, c)
            } else {
                (m2, Ok(()))
            },
        }
    }
}

/// Runs a whole script; scripts over the size limit fail before any instruction.
pub open spec fn spec_execute(m: EngineModel, script: Seq<u8>, c: ScriptContext) -> Outcome {
    if script.len() > MAX_SCRIPT_BYTES {
        (m, Err(ScriptError::ScriptTooLarge))
    } else {
        spec_run(m, script, 0, c)
    }
}

/// The machine stays within the counter limits for the steps of one run.
pub open spec fn counters_in_bounds(m: EngineModel) -> bool {
    &&& m.skip_depth <= usize::MAX - 256
    &&& m.sig_op_count <= usize::MAX - 256
}

/// The heights at which the time-lock instructions' estimate of time does not overflow.
pub open spec fn height_in_bounds(height: u64) -> bool {
    height <= u64::MAX / 60
}

/// The script machine.
pub struct ScriptEngine {
    pub stack: Vec<Vec<u8>>,
    alt_stack: Vec<Vec<u8>>,
    opcode_count: usize,
    sig_op_count: usize,
    control_stack: Vec<bool>,
    skip_depth: usize,
}

impl View for ScriptEngine {
    type V = EngineModel;

    closed spec fn view(&self) -> EngineModel {
        EngineModel {
            stack: byte_lists(self.stack@),
            alt_stack: byte_lists(self.alt_stack@),
            opcode_count: self.opcode_count as nat,
            sig_op_count: self.sig_op_count as nat,
            control_stack: self.control_stack@,
            skip_depth: self.skip_depth as nat,
        }
    }
}

/// A byte string holding the result of an instruction that pushes true or false.
pub fn bool_item(b: bool) -> (r: Vec<u8>)
    ensures
        r@ == (if b {
            true_item()
        } else {
            Seq::<u8>::empty()
        }),
{
    if b {
        let mut v: Vec<u8> = Vec::new();
        v.push(1u8);
        assert(v@ =~= true_item());
        v
    } else {
        Vec::new()
    }
}

impl ScriptEngine {
    pub fn new() -> (r: ScriptEngine)
        ensures
            r@ == EngineModel::initial(),
    {
        let r = ScriptEngine {
            stack: Vec::new(),
            alt_stack: Vec::new(),
            opcode_count: 0,
            sig_op_count: 0,
            control_stack: Vec::new(),
            skip_depth: 0,
        };
        assert(r@.stack =~= Seq::<Seq<u8>>::empty());
        assert(r@.alt_stack =~= Seq::<Seq<u8>>::empty());
        r
    }

    /// The number of signature operations counted so far.
    pub fn get_sig_op_count(&self) -> (r: usize)
        ensures
            r == self@.sig_op_count,
    {
        self.sig_op_count
    }

    /// Sets the signature operation counter (for counting across a transaction).
    pub fn set_sig_op_count(&mut self, count: usize)
        ensures
            final(self)@ == old(self)@.with_sig_ops(count as nat),
    {
        self.sig_op_count = count;
    }

    /// The number of items on the main stack.
    pub fn stack_len(&self) -> (r: usize)
        ensures
            r == self@.stack.len(),
    {
        self.stack.len()
    }

    /// Clears stacks and counters for a new script, keeping the signature operation count.
    pub fn reset_for_script(&mut self)
        ensures
            final(self)@ == old(self)@.reset(),
    {
        self.stack.clear();
        self.alt_stack.clear();
        self.opcode_count = 0;
        self.control_stack.clear();
        self.skip_depth = 0;
        assert(self@.stack =~= Seq::<Seq<u8>>::empty());
        assert(self@.alt_stack =~= Seq::<Seq<u8>>::empty());
        assert(self@.control_stack =~= Seq::<bool>::empty());
    }

    /// Pushes an item onto the main stack.
    pub fn push_data(&mut self, data: Vec<u8>)
        ensures
            final(self)@ == old(self)@.with_stack(old(self)@.stack.push(data@)),
    {
        self.stack.push(data);
        assert(self@.stack =~= old(self)@.stack.push(data@));
    }

    /// Pops the top item of the main stack.
    pub fn pop_data(&mut self) -> (r: Result<Vec<u8>, ScriptError>)
        ensures
            old(self)@.stack.len() == 0 ==> r == Err::<Vec<u8>, ScriptError>(
                ScriptError::StackUnderflow,
            ) && final(self)@ == old(self)@,
            old(self)@.stack.len() > 0 ==> (r matches Ok(v) && v@ == old(self)@.stack.last()
                && final(self)@ == old(self)@.with_stack(old(self)@.stack.drop_last())),
    {
        match self.stack.pop() {
            Some(v) => {
                assert(self@.stack =~= old(self)@.stack.drop_last());
                Ok(v)
            },
            None => {
                assert(self@.stack =~= old(self)@.stack);
                Err(ScriptError::StackUnderflow)
            },
        }
    }

    /// Pops the top `k` items, returned bottom first; on underflow every item is gone.
    fn pop_n(&mut self, k: usize) -> (r: Result<Vec<Vec<u8>>, ScriptError>)
        ensures
            old(self)@.stack.len() < k ==> r == Err::<Vec<Vec<u8>>, ScriptError>(
                ScriptError::StackUnderflow,
            ) && final(self)@ == old(self)@.with_stack(Seq::empty()),
            old(self)@.stack.len() >= k ==> (r matches Ok(items) && byte_lists(items@) == old(
                self,
            )@.stack.skip(old(self)@.stack.len() - k) && final(self)@ == old(self)@.with_stack(
                old(self)@.stack.take(old(self)@.stack.len() - k),
            )),
    {
        let ghost len0 = self.stack@.len();
        let mut items: Vec<Vec<u8>> = Vec::new();
        let mut i: usize = 0;
        while i < k
            invariant
                i <= k,
                i <= len0,
                len0 == old(self).stack@.len(),
                self.stack@ == old(self).stack@.take(len0 - i),
                items@ == old(self).stack@.subrange(len0 - i, len0 as int),
                self.alt_stack == old(self).alt_stack,
                self.opcode_count == old(self).opcode_count,
                self.sig_op_count == old(self).sig_op_count,
                self.control_stack == old(self).control_stack,
                self.skip_depth == old(self).skip_depth,
            decreases k - i,
        {
            match self.stack.pop() {
                Some(v) => {
                    items.insert(0, v);
                    i = i + 1;
                    assert(self.stack@ =~= old(self).stack@.take(len0 - i));
                    assert(items@ =~= old(self).stack@.subrange(len0 - i, len0 as int));
                },
                None => {
                    assert(self@.stack =~= Seq::<Seq<u8>>::empty());
                    return Err(ScriptError::StackUnderflow);
                },
            }
        }
        assert(self@.stack =~= old(self)@.stack.take(old(self)@.stack.len() - k));
        assert(byte_lists(items@) =~= old(self)@.stack.skip(old(self)@.stack.len() - k));
        Ok(items)
    }

    /// Whether a stack item counts as false: empty, or a single zero byte.
    pub fn is_false(v: &[u8]) -> (r: bool)
        ensures
            r == spec_is_false(v@),
    {
        v.len() == 0 || (v.len() == 1 && v[0] == 0)
    }

    /// A stack item read as a little-endian count of at most eight bytes.
    pub fn as_usize(v: &[u8]) -> (r: Result<usize, ScriptError>)
        ensures
            r == spec_as_usize(v@),
    {
        if v.len() > 8 {
            return Err(ScriptError::InvalidStackState);
        }
        let x = le_value_u64(v);
        Ok(x as usize)
    }

    /// A stack item read as a little-endian `u32` of at most four bytes.
    pub fn as_u32(v: &[u8]) -> (r: Result<u32, ScriptError>)
        ensures
            r == spec_as_u32(v@),
    {
        if v.len() > 4 {
            return Err(ScriptError::InvalidStackState);
        }
        let x = le_value_u64(v);
        Ok(x as u32)
    }
}

impl ScriptEngine {
    fn take_items(&mut self, k: usize) -> (r: Result<Vec<Vec<u8>>, ScriptError>)
        ensures
            old(self)@.stack.len() < k ==> r == Err::<Vec<Vec<u8>>, ScriptError>(
                ScriptError::StackUnderflow,
            ) && final(self)@ == old(self)@.with_stack(Seq::empty()),
            old(self)@.stack.len() >= k ==> (r matches Ok(items) && items@.len() == k
                && byte_lists(items@) == old(self)@.stack.skip(old(self)@.stack.len() - k)
                && final(self)@ == old(self)@.with_stack(
                old(self)@.stack.take(old(self)@.stack.len() - k),
            )),
    {
        let r = self.pop_n(k);
        proof {
            if old(self)@.stack.len() >= k {
                let items = r->Ok_0;
                assert(byte_lists(items@).len() == items@.len());
            }
        }
        r
    }

    // OP_DUP
    fn op_dup(&mut self) -> (r: Result<(), ScriptError>)
        ensures
            (final(self)@, r) == spec_op_dup(old(self)@),
    {
        let mut t = match self.take_items(1) {
            Ok(t) => t,
            Err(e) => return Err(e),
        };
        let ghost items = byte_lists(t@);
        let a = t.pop().unwrap();
        assert(a@ == items[0]);
        let c = copy_bytes(a.as_slice());
        self.push_data(c);
        self.push_data(a);
        assert(self@.stack =~= old(self)@.stack.take(old(self)@.stack.len() - 1) + seq![items[0], items[0]]);
        Ok(())
    }

    // OP_DROP
    fn op_drop(&mut self) -> (r: Result<(), ScriptError>)
        ensures
            (final(self)@, r) == spec_op_drop(old(self)@),
    {
        match self.take_items(1) {
            Ok(_) => {},
            Err(e) => return Err(e),
        };
        assert(self@.stack =~= old(self)@.stack.take(old(self)@.stack.len() - 1) + Seq::<Seq<u8>>::empty());
        Ok(())
    }

    // OP_NIP
    fn op_nip(&mut self) -> (r: Result<(), ScriptError>)
        ensures
            (final(self)@, r) == spec_op_nip(old(self)@),
    {
        let mut t = match self.take_items(2) {
            Ok(t) => t,
            Err(e) => return Err(e),
        };
        let ghost items = byte_lists(t@);
        let x2 = t.pop().unwrap();
        assert(x2@ == items[1]);
        self.push_data(x2);
        assert(self@.stack =~= old(self)@.stack.take(old(self)@.stack.len() - 2) + seq![items[1]]);
        Ok(())
    }

    // OP_OVER
    fn op_over(&mut self) -> (r: Result<(), ScriptError>)
        ensures
            (final(self)@, r) == spec_op_over(old(self)@),
    {
        let mut t = match self.take_items(2) {
            Ok(t) => t,
            Err(e) => return Err(e),
        };
        let ghost items = byte_lists(t@);
        let x2 = t.pop().unwrap();
        let x1 = t.pop().unwrap();
        assert(x2@ == items[1]);
        assert(x1@ == items[0]);
        let c = copy_bytes(x1.as_slice());
        self.push_data(c);
        self.push_data(x2);
        self.push_data(x1);
        assert(self@.stack =~= old(self)@.stack.take(old(self)@.stack.len() - 2) + seq![items[0], items[1], items[0]]);
        Ok(())
    }

    // OP_ROT
    fn op_rot(&mut self) -> (r: Result<(), ScriptError>)
        ensures
            (final(self)@, r) == spec_op_rot(old(self)@),
            ({
                let s = old(self)@.stack;
                let n = s.len() as int;
                n >= 3 ==> r is Ok && final(self)@.stack == s.take(n - 3).push(s[n - 2]).push(s[n - 1]).push(s[n - 3])
            }),
    {
        let mut t = match self.take_items(3) {
            Ok(t) => t,
            Err(e) => return Err(e),
        };
        let ghost items = byte_lists(t@);
        let x3 = t.pop().unwrap();
        let x2 = t.pop().unwrap();
        let x1 = t.pop().unwrap();
        assert(x3@ == items[2]);
        assert(x2@ == items[1]);
        assert(x1@ == items[0]);
        self.push_data(x2);
        self.push_data(x3);
        self.push_data(x1);
        assert(self@.stack =~= old(self)@.stack.take(old(self)@.stack.len() - 3) + seq![items[1], items[2], items[0]]);
        Ok(())
    }

    // OP_SWAP
    fn op_swap(&mut self) -> (r: Result<(), ScriptError>)
        ensures
            (final(self)@, r) == spec_op_swap(old(self)@),
    {
        let mut t = match self.take_items(2) {
            Ok(t) => t,
            Err(e) => return Err(e),
        };
        let ghost items = byte_lists(t@);
        let x2 = t.pop().unwrap();
        let x1 = t.pop().unwrap();
        assert(x2@ == items[1]);
        assert(x1@ == items[0]);
        self.push_data(x2);
        self.push_data(x1);
        assert(self@.stack =~= old(self)@.stack.take(old(self)@.stack.len() - 2) + seq![items[1], items[0]]);
        Ok(())
    }

    // OP_TUCK
    fn op_tuck(&mut self) -> (r: Result<(), ScriptError>)
        ensures
            (final(self)@, r) == spec_op_tuck(old(self)@),
    {
        let mut t = match self.take_items(2) {
            Ok(t) => t,
            Err(e) => return Err(e),
        };
        let ghost items = byte_lists(t@);
        let x2 = t.pop().unwrap();
        let x1 = t.pop().unwrap();
        assert(x2@ == items[1]);
        assert(x1@ == items[0]);
        let c = copy_bytes(x2.as_slice());
        self.push_data(c);
        self.push_data(x1);
        self.push_data(x2);
        assert(self@.stack =~= old(self)@.stack.take(old(self)@.stack.len() - 2) + seq![items[1], items[0], items[1]]);
        Ok(())
    }

    // OP_2DROP
    fn op_2drop(&mut self) -> (r: Result<(), ScriptError>)
        ensures
            (final(self)@, r) == spec_op_2drop(old(self)@),
    {
        match self.take_items(2) {
            Ok(_) => {},
            Err(e) => return Err(e),
        };
        assert(self@.stack =~= old(self)@.stack.take(old(self)@.stack.len() - 2) + Seq::<Seq<u8>>::empty());
        Ok(())
    }

    // OP_2DUP
    fn op_2dup(&mut self) -> (r: Result<(), ScriptError>)
        ensures
            (final(self)@, r) == spec_op_2dup(old(self)@),
    {
        let mut t = match self.take_items(2) {
            Ok(t) => t,
            Err(e) => return Err(e),
        };
        let ghost items = byte_lists(t@);
        let x2 = t.pop().unwrap();
        let x1 = t.pop().unwrap();
        assert(x2@ == items[1]);
        assert(x1@ == items[0]);
        let c1 = copy_bytes(x1.as_slice());
        let c2 = copy_bytes(x2.as_slice());
        self.push_data(c1);
        self.push_data(c2);
        self.push_data(x1);
        self.push_data(x2);
        assert(self@.stack =~= old(self)@.stack.take(old(self)@.stack.len() - 2) + seq![items[0], items[1], items[0], items[1]]);
        Ok(())
    }

    // OP_3DUP
    fn op_3dup(&mut self) -> (r: Result<(), ScriptError>)
        ensures
            (final(self)@, r) == spec_op_3dup(old(self)@),
    {
        let mut t = match self.take_items(3) {
            Ok(t) => t,
            Err(e) => return Err(e),
        };
        let ghost items = byte_lists(t@);
        let x3 = t.pop().unwrap();
        let x2 = t.pop().unwrap();
        let x1 = t.pop().unwrap();
        assert(x3@ == items[2]);
        assert(x2@ == items[1]);
        assert(x1@ == items[0]);
        let c1 = copy_bytes(x1.as_slice());
        let c2 = copy_bytes(x2.as_slice());
        let c3 = copy_bytes(x3.as_slice());
        self.push_data(c1);
        self.push_data(c2);
        self.push_data(c3);
        self.push_data(x1);
        self.push_data(x2);
        self.push_data(x3);
        assert(self@.stack =~= old(self)@.stack.take(old(self)@.stack.len() - 3) + seq![items[0], items[1], items[2], items[0], items[1], items[2]]);
        Ok(())
    }

    // OP_2OVER
    fn op_2over(&mut self) -> (r: Result<(), ScriptError>)
        ensures
            (final(self)@, r) == spec_op_2over(old(self)@),
    {
        let mut t = match self.take_items(4) {
            Ok(t) => t,
            Err(e) => return Err(e),
        };
        let ghost items = byte_lists(t@);
        let x4 = t.pop().unwrap();
        let x3 = t.pop().unwrap();
        let x2 = t.pop().unwrap();
        let x1 = t.pop().unwrap();
        assert(x4@ == items[3]);
        assert(x3@ == items[2]);
        assert(x2@ == items[1]);
        assert(x1@ == items[0]);
        let c1 = copy_bytes(x1.as_slice());
        let c2 = copy_bytes(x2.as_slice());
        self.push_data(c1);
        self.push_data(c2);
        self.push_data(x3);
        self.push_data(x4);
        self.push_data(x1);
        self.push_data(x2);
        assert(self@.stack =~= old(self)@.stack.take(old(self)@.stack.len() - 4) + seq![items[0], items[1], items[2], items[3], items[0], items[1]]);
        Ok(())
    }

    // OP_2ROT
    fn op_2rot(&mut self) -> (r: Result<(), ScriptError>)
        ensures
            (final(self)@, r) == spec_op_2rot(old(self)@),
    {
        let mut t = match self.take_items(6) {
            Ok(t) => t,
            Err(e) => return Err(e),
        };
        let ghost items = byte_lists(t@);
        let x6 = t.pop().unwrap();
        let x5 = t.pop().unwrap();
        let x4 = t.pop().unwrap();
        let x3 = t.pop().unwrap();
        let x2 = t.pop().unwrap();
        let x1 = t.pop().unwrap();
        assert(x6@ == items[5]);
        assert(x5@ == items[4]);
        assert(x4@ == items[3]);
        assert(x3@ == items[2]);
        assert(x2@ == items[1]);
        assert(x1@ == items[0]);
        self.push_data(x3);
        self.push_data(x4);
        self.push_data(x5);
        self.push_data(x6);
        self.push_data(x1);
        self.push_data(x2);
        assert(self@.stack =~= old(self)@.stack.take(old(self)@.stack.len() - 6) + seq![items[2], items[3], items[4], items[5], items[0], items[1]]);
        Ok(())
    }

    // OP_2SWAP
    fn op_2swap(&mut self) -> (r: Result<(), ScriptError>)
        ensures
            (final(self)@, r) == spec_op_2swap(old(self)@),
    {
        let mut t = match self.take_items(4) {
            Ok(t) => t,
            Err(e) => return Err(e),
        };
        let ghost items = byte_lists(t@);
        let x4 = t.pop().unwrap();
        let x3 = t.pop().unwrap();
        let x2 = t.pop().unwrap();
        let x1 = t.pop().unwrap();
        assert(x4@ == items[3]);
        assert(x3@ == items[2]);
        assert(x2@ == items[1]);
        assert(x1@ == items[0]);
        self.push_data(x3);
        self.push_data(x4);
        self.push_data(x1);
        self.push_data(x2);
        assert(self@.stack =~= old(self)@.stack.take(old(self)@.stack.len() - 4) + seq![items[2], items[3], items[0], items[1]]);
        Ok(())
    }

    // OP_EQUAL
    pub fn op_equal(&mut self) -> (r: Result<(), ScriptError>)
        ensures
            (final(self)@, r) == spec_op_equal(old(self)@),
    {
        let mut t = match self.take_items(2) {
            Ok(t) => t,
            Err(e) => return Err(e),
        };
        let ghost items = byte_lists(t@);
        let b = t.pop().unwrap();
        let a = t.pop().unwrap();
        assert(b@ == items[1]);
        assert(a@ == items[0]);
        let eq = crate::bytes::bytes_eq(a.as_slice(), b.as_slice());
        self.push_data(bool_item(eq));
        assert(self@.stack =~= old(self)@.stack.take(old(self)@.stack.len() - 2) + seq![
            if items[0] == items[1] { true_item() } else { Seq::<u8>::empty() }
        ]);
        Ok(())
    }

    // OP_VERIFY
    pub fn op_verify(&mut self) -> (r: Result<(), ScriptError>)
        ensures
            (final(self)@, r) == spec_op_verify(old(self)@),
    {
        let top = match self.pop_data() {
            Ok(v) => v,
            Err(e) => return Err(e),
        };
        if ScriptEngine::is_false(top.as_slice()) {
            return Err(ScriptError::VerificationFailed);
        }
        Ok(())
    }

    // OP_EQUALVERIFY
    fn op_equal_verify(&mut self) -> (r: Result<(), ScriptError>)
        ensures
            (final(self)@, r) == spec_op_equal_verify(old(self)@),
    {
        match self.op_equal() {
            Ok(()) => {},
            Err(e) => return Err(e),
        }
        self.op_verify()
    }

    // OP_CAT
    fn op_cat(&mut self) -> (r: Result<(), ScriptError>)
        ensures
            (final(self)@, r) == spec_op_cat(old(self)@),
    {
        let mut t = match self.take_items(2) {
            Ok(t) => t,
            Err(e) => return Err(e),
        };
        let ghost items = byte_lists(t@);
        let b = t.pop().unwrap();
        let mut a = t.pop().unwrap();
        assert(b@ == items[1]);
        assert(a@ == items[0]);
        crate::bytes::extend_bytes(&mut a, b.as_slice());
        self.push_data(a);
        assert(self@.stack =~= old(self)@.stack.take(old(self)@.stack.len() - 2) + seq![items[0] + items[1]]);
        Ok(())
    }

    // OP_SIZE
    fn op_size(&mut self) -> (r: Result<(), ScriptError>)
        ensures
            (final(self)@, r) == spec_op_size(old(self)@),
    {
        let mut t = match self.take_items(1) {
            Ok(t) => t,
            Err(e) => return Err(e),
        };
        let ghost items = byte_lists(t@);
        let data = t.pop().unwrap();
        assert(data@ == items[0]);
        let len = data.len() as u64;
        let mut enc: Vec<u8> = Vec::new();
        push_u64_le(&mut enc, len);
        assert(enc@ =~= u64_le(len));
        self.push_data(data);
        self.push_data(enc);
        assert(self@.stack =~= old(self)@.stack.take(old(self)@.stack.len() - 1) + seq![items[0], u64_le(items[0].len() as u64)]);
        Ok(())
    }

    // OP_INVERT
    fn op_invert(&mut self) -> (r: Result<(), ScriptError>)
        ensures
            (final(self)@, r) == spec_op_invert(old(self)@),
    {
        let mut t = match self.take_items(1) {
            Ok(t) => t,
            Err(e) => return Err(e),
        };
        let ghost items = byte_lists(t@);
        let data = t.pop().unwrap();
        assert(data@ == items[0]);
        let mut inverted: Vec<u8> = Vec::new();
        let mut i: usize = 0;
        while i < data.len()
            invariant
                i <= data@.len(),
                inverted@ == invert_bytes(data@).take(i as int),
            decreases data@.len() - i,
        {
            inverted.push(!data[i]);
            i = i + 1;
            assert(inverted@ =~= invert_bytes(data@).take(i as int));
        }
        assert(inverted@ =~= invert_bytes(data@));
        self.push_data(inverted);
        assert(self@.stack =~= old(self)@.stack.take(old(self)@.stack.len() - 1) + seq![invert_bytes(items[0])]);
        Ok(())
    }

    fn op_bitwise(&mut self, op: BitOp) -> (r: Result<(), ScriptError>)
        ensures
            (final(self)@, r) == spec_op_bitwise(old(self)@, op),
    {
        let mut t = match self.take_items(2) {
            Ok(t) => t,
            Err(e) => return Err(e),
        };
        let ghost items = byte_lists(t@);
        let b = t.pop().unwrap();
        let a = t.pop().unwrap();
        assert(b@ == items[1]);
        assert(a@ == items[0]);
        assert(items[1] == old(self)@.stack.last());
        assert(items[0] == old(self)@.stack.drop_last().last());
        assert(self@.stack =~= old(self)@.stack.drop_last().drop_last());
        if a.len() != b.len() {
            return Err(ScriptError::InvalidStackState);
        }
        let mut result: Vec<u8> = Vec::new();
        let mut i: usize = 0;
        while i < a.len()
            invariant
                i <= a@.len(),
                a@.len() == b@.len(),
                result@ == spec_bitwise(op, a@, b@).take(i as int),
            decreases a@.len() - i,
        {
            let x = a[i];
            let y = b[i];
            let z = match op {
                BitOp::And => x & y,
                BitOp::Or => x | y,
                BitOp::Xor => x ^ y,
            };
            result.push(z);
            i = i + 1;
            assert(result@ =~= spec_bitwise(op, a@, b@).take(i as int));
        }
        assert(result@ =~= spec_bitwise(op, a@, b@));
        self.push_data(result);
        Ok(())
    }

    // OP_AND
    fn op_and(&mut self) -> (r: Result<(), ScriptError>)
        ensures
            (final(self)@, r) == spec_op_bitwise(old(self)@, BitOp::And),
    {
        self.op_bitwise(BitOp::And)
    }

    // OP_OR
    fn op_or(&mut self) -> (r: Result<(), ScriptError>)
        ensures
            (final(self)@, r) == spec_op_bitwise(old(self)@, BitOp::Or),
    {
        self.op_bitwise(BitOp::Or)
    }

    // OP_XOR
    fn op_xor(&mut self) -> (r: Result<(), ScriptError>)
        ensures
            (final(self)@, r) == spec_op_bitwise(old(self)@, BitOp::Xor),
    {
        self.op_bitwise(BitOp::Xor)
    }

    // OP_RIPEMD160
    fn op_ripemd160(&mut self) -> (r: Result<(), ScriptError>)
        ensures
            (final(self)@, r) == spec_op_ripemd160(old(self)@),
    {
        let mut t = match self.take_items(1) {
            Ok(t) => t,
            Err(e) => return Err(e),
        };
        let ghost items = byte_lists(t@);
        let data = t.pop().unwrap();
        assert(data@ == items[0]);
        self.push_data(ripemd160(data.as_slice()));
        assert(self@.stack =~= old(self)@.stack.take(old(self)@.stack.len() - 1) + seq![ripemd160_digest(items[0])]);
        Ok(())
    }

    // OP_SHA1
    fn op_sha1(&mut self) -> (r: Result<(), ScriptError>)
        ensures
            (final(self)@, r) == spec_op_sha1(old(self)@),
    {
        let mut t = match self.take_items(1) {
            Ok(t) => t,
            Err(e) => return Err(e),
        };
        let ghost items = byte_lists(t@);
        let data = t.pop().unwrap();
        assert(data@ == items[0]);
        self.push_data(sha1(data.as_slice()));
        assert(self@.stack =~= old(self)@.stack.take(old(self)@.stack.len() - 1) + seq![sha1_digest(items[0])]);
        Ok(())
    }

    // OP_SHA256
    fn op_sha256(&mut self) -> (r: Result<(), ScriptError>)
        ensures
            (final(self)@, r) == spec_op_sha256(old(self)@),
    {
        let mut t = match self.take_items(1) {
            Ok(t) => t,
            Err(e) => return Err(e),
        };
        let ghost items = byte_lists(t@);
        let data = t.pop().unwrap();
        assert(data@ == items[0]);
        self.push_data(sha256(data.as_slice()));
        assert(self@.stack =~= old(self)@.stack.take(old(self)@.stack.len() - 1) + seq![sha256_digest(items[0])]);
        Ok(())
    }

    // OP_HASH160: pops A, pushes RIPEMD160(SHA256(A)).
    pub fn op_hash160(&mut self) -> (r: Result<(), ScriptError>)
        ensures
            (final(self)@, r) == spec_op_hash160(old(self)@),
    {
        let mut t = match self.take_items(1) {
            Ok(t) => t,
            Err(e) => return Err(e),
        };
        let ghost items = byte_lists(t@);
        let data = t.pop().unwrap();
        assert(data@ == items[0]);
        let first = sha256(data.as_slice());
        self.push_data(ripemd160(first.as_slice()));
        assert(self@.stack =~= old(self)@.stack.take(old(self)@.stack.len() - 1) + seq![hash160(items[0])]);
        Ok(())
    }

    // OP_HASH256
    fn op_hash256(&mut self) -> (r: Result<(), ScriptError>)
        ensures
            (final(self)@, r) == spec_op_hash256(old(self)@),
    {
        let mut t = match self.take_items(1) {
            Ok(t) => t,
            Err(e) => return Err(e),
        };
        let ghost items = byte_lists(t@);
        let data = t.pop().unwrap();
        assert(data@ == items[0]);
        let first = sha256(data.as_slice());
        self.push_data(sha256(first.as_slice()));
        assert(self@.stack =~= old(self)@.stack.take(old(self)@.stack.len() - 1) + seq![sha256_digest(sha256_digest(items[0]))]);
        Ok(())
    }

    // OP_TOALTSTACK
    fn op_toaltstack(&mut self) -> (r: Result<(), ScriptError>)
        ensures
            (final(self)@, r) == spec_op_toaltstack(old(self)@),
    {
        let val = match self.pop_data() {
            Ok(v) => v,
            Err(e) => return Err(e),
        };
        let ghost mid = self@;
        self.alt_stack.push(val);
        assert(self@.alt_stack =~= old(self)@.alt_stack.push(old(self)@.stack.last()));
        assert(self@.stack =~= mid.stack);
        Ok(())
    }

    // OP_FROMALTSTACK
    fn op_fromaltstack(&mut self) -> (r: Result<(), ScriptError>)
        ensures
            (final(self)@, r) == spec_op_fromaltstack(old(self)@),
    {
        let val = match self.alt_stack.pop() {
            Some(v) => v,
            None => {
                assert(self@.alt_stack =~= old(self)@.alt_stack);
                return Err(ScriptError::StackUnderflow);
            },
        };
        assert(self@.alt_stack =~= old(self)@.alt_stack.drop_last());
        assert(val@ == old(self)@.alt_stack.last());
        self.push_data(val);
        Ok(())
    }

    // OP_PICK
    fn op_pick(&mut self) -> (r: Result<(), ScriptError>)
        ensures
            (final(self)@, r) == spec_op_pick(old(self)@),
    {
        let top = match self.pop_data() {
            Ok(v) => v,
            Err(e) => return Err(e),
        };
        let n = match ScriptEngine::as_usize(top.as_slice()) {
            Ok(n) => n,
            Err(e) => return Err(e),
        };
        if n >= self.stack.len() {
            return Err(ScriptError::StackUnderflow);
        }
        let idx = self.stack.len() - n - 1;
        let val = copy_bytes(self.stack[idx].as_slice());
        assert(val@ == self@.stack[idx as int]);
        self.push_data(val);
        Ok(())
    }

    // OP_ROLL
    fn op_roll(&mut self) -> (r: Result<(), ScriptError>)
        ensures
            (final(self)@, r) == spec_op_roll(old(self)@),
    {
        let top = match self.pop_data() {
            Ok(v) => v,
            Err(e) => return Err(e),
        };
        let n = match ScriptEngine::as_usize(top.as_slice()) {
            Ok(n) => n,
            Err(e) => return Err(e),
        };
        if n >= self.stack.len() {
            return Err(ScriptError::StackUnderflow);
        }
        let ghost before = self@.stack;
        let idx = self.stack.len() - n - 1;
        let val = self.stack.remove(idx);
        assert(val@ == before[idx as int]);
        assert(self@.stack =~= before.remove(idx as int));
        self.push_data(val);
        Ok(())
    }

    // OP_SUBSTR
    fn op_substr(&mut self) -> (r: Result<(), ScriptError>)
        ensures
            (final(self)@, r) == spec_op_substr(old(self)@),
    {
        let size_item = match self.pop_data() {
            Ok(v) => v,
            Err(e) => return Err(e),
        };
        let size = match ScriptEngine::as_usize(size_item.as_slice()) {
            Ok(n) => n,
            Err(e) => return Err(e),
        };
        let offset_item = match self.pop_data() {
            Ok(v) => v,
            Err(e) => return Err(e),
        };
        let offset = match ScriptEngine::as_usize(offset_item.as_slice()) {
            Ok(n) => n,
            Err(e) => return Err(e),
        };
        let data = match self.pop_data() {
            Ok(v) => v,
            Err(e) => return Err(e),
        };
        if size > data.len() || offset > data.len() - size {
            return Err(ScriptError::InvalidStackState);
        }
        let part = copy_range(data.as_slice(), offset, offset + size);
        self.push_data(part);
        Ok(())
    }

    // OP_LEFT
    fn op_left(&mut self) -> (r: Result<(), ScriptError>)
        ensures
            (final(self)@, r) == spec_op_left(old(self)@),
    {
        let size_item = match self.pop_data() {
            Ok(v) => v,
            Err(e) => return Err(e),
        };
        let size = match ScriptEngine::as_usize(size_item.as_slice()) {
            Ok(n) => n,
            Err(e) => return Err(e),
        };
        let data = match self.pop_data() {
            Ok(v) => v,
            Err(e) => return Err(e),
        };
        if size > data.len() {
            return Err(ScriptError::InvalidStackState);
        }
        let part = copy_range(data.as_slice(), 0, size);
        assert(part@ =~= data@.take(size as int));
        self.push_data(part);
        Ok(())
    }

    // OP_RIGHT
    fn op_right(&mut self) -> (r: Result<(), ScriptError>)
        ensures
            (final(self)@, r) == spec_op_right(old(self)@),
    {
        let size_item = match self.pop_data() {
            Ok(v) => v,
            Err(e) => return Err(e),
        };
        let size = match ScriptEngine::as_usize(size_item.as_slice()) {
            Ok(n) => n,
            Err(e) => return Err(e),
        };
        let data = match self.pop_data() {
            Ok(v) => v,
            Err(e) => return Err(e),
        };
        if size > data.len() {
            return Err(ScriptError::InvalidStackState);
        }
        let part = copy_range(data.as_slice(), data.len() - size, data.len());
        assert(part@ =~= data@.skip(data@.len() - size));
        self.push_data(part);
        Ok(())
    }

    // OP_CODESEPARATOR: no code positions are tracked, so it does nothing.
    fn op_codeseparator(&mut self) -> (r: Result<(), ScriptError>)
        ensures
            final(self)@ == old(self)@,
            r == Ok::<(), ScriptError>(()),
    {
        Ok(())
    }

    /// Whether instructions are being skipped (inside a branch not taken).
    fn should_skip(&self) -> (r: bool)
        ensures
            r == (self@.skip_depth > 0),
    {
        self.skip_depth > 0
    }

    fn op_if_common(&mut self, negate: bool) -> (r: Result<(), ScriptError>)
        requires
            old(self)@.skip_depth < usize::MAX,
        ensures
            (final(self)@, r) == spec_op_if(old(self)@, negate),
    {
        if self.skip_depth > 0 {
            self.skip_depth = self.skip_depth + 1;
            return Ok(());
        }
        let condition = match self.pop_data() {
            Ok(val) => if negate {
                ScriptEngine::is_false(val.as_slice())
            } else {
                !ScriptEngine::is_false(val.as_slice())
            },
            Err(_) => false,
        };
        self.control_stack.push(condition);
        if !condition {
            self.skip_depth = 1;
        }
        Ok(())
    }

    // OP_IF
    fn op_if(&mut self) -> (r: Result<(), ScriptError>)
        requires
            old(self)@.skip_depth < usize::MAX,
        ensures
            (final(self)@, r) == spec_op_if(old(self)@, false),
    {
        self.op_if_common(false)
    }

    // OP_NOTIF
    fn op_notif(&mut self) -> (r: Result<(), ScriptError>)
        requires
            old(self)@.skip_depth < usize::MAX,
        ensures
            (final(self)@, r) == spec_op_if(old(self)@, true),
    {
        self.op_if_common(true)
    }

    // OP_ELSE
    fn op_else(&mut self) -> (r: Result<(), ScriptError>)
        ensures
            (final(self)@, r) == spec_op_else(old(self)@),
    {
        if self.skip_depth > 0 {
            if self.skip_depth == 1 {
                self.skip_depth = 0;
            }
            return Ok(());
        }
        let len = self.control_stack.len();
        if len == 0 {
            return Err(ScriptError::InvalidStackState);
        }
        let c = !self.control_stack[len - 1];
        self.control_stack.set(len - 1, c);
        if !c {
            self.skip_depth = 1;
        }
        Ok(())
    }

    // OP_ENDIF
    fn op_endif(&mut self) -> (r: Result<(), ScriptError>)
        ensures
            (final(self)@, r) == spec_op_endif(old(self)@),
    {
        if self.skip_depth > 0 {
            self.skip_depth = self.skip_depth - 1;
            return Ok(());
        }
        match self.control_stack.pop() {
            Some(_) => Ok(()),
            None => Err(ScriptError::InvalidStackState),
        }
    }
}

/// Whether `sig` verifies under one of `keys`, trying them in order; a signature or a key
/// that does not decode aborts the search.
fn sig_matches(sig: &[u8], keys: &Vec<Vec<u8>>, msg: &[u8]) -> (r: Result<bool, ()>)
    ensures
        r == sig_matches_from(sig@, byte_lists(keys@), msg@, 0),
{
    let ghost ks = byte_lists(keys@);
    let mut j: usize = 0;
    while j < keys.len()
        invariant
            j <= keys@.len(),
            ks == byte_lists(keys@),
            sig_matches_from(sig@, ks, msg@, 0) == sig_matches_from(sig@, ks, msg@, j as int),
        decreases keys@.len() - j,
    {
        assert(ks[j as int] == keys@[j as int]@);
        let signature = match decode_signature(sig) {
            Some(x) => x,
            None => return Err(()),
        };
        let public_key = match decode_public_key(keys[j].as_slice()) {
            Some(x) => x,
            None => return Err(()),
        };
        if ed25519_verify(&public_key, msg, &signature) {
            return Ok(true);
        }
        j = j + 1;
    }
    Ok(false)
}

/// How many of `sigs` verify under some key of `keys`, unless a decoding failure aborts
/// the count.
fn count_matching(sigs: &Vec<Vec<u8>>, keys: &Vec<Vec<u8>>, msg: &[u8]) -> (r: Result<usize, ()>)
    ensures
        match count_verified(byte_lists(sigs@), byte_lists(keys@), msg@, sigs@.len()) {
            Ok(c) => r == Ok::<usize, ()>(c as usize) && c <= sigs@.len(),
            Err(_) => r is Err,
        },
{
    let ghost ss = byte_lists(sigs@);
    let ghost ks = byte_lists(keys@);
    let mut count: usize = 0;
    let mut i: usize = 0;
    while i < sigs.len()
        invariant
            i <= sigs@.len(),
            ss == byte_lists(sigs@),
            ks == byte_lists(keys@),
            count <= i,
            count_verified(ss, ks, msg@, i as nat) == Ok::<nat, ()>(count as nat),
        decreases sigs@.len() - i,
    {
        assert(ss[i as int] == sigs@[i as int]@);
        match sig_matches(sigs[i].as_slice(), keys, msg) {
            Ok(true) => {
                count = count + 1;
            },
            Ok(false) => {},
            Err(_) => {
                assert(count_verified(ss, ks, msg@, (i + 1) as nat) is Err);
                proof {
                    lemma_count_verified_err_persists(ss, ks, msg@, (i + 1) as nat, sigs@.len());
                }
                return Err(());
            },
        }
        i = i + 1;
    }
    Ok(count)
}

impl ScriptEngine {
    // OP_CHECKSIG
    fn op_checksig(&mut self, tx: &Transaction, input_index: usize, script_pubkey: &[u8]) -> (r: Result<(), ScriptError>)
        requires
            old(self)@.sig_op_count < usize::MAX,
        ensures
            (final(self)@, r) == spec_op_checksig(old(self)@, *tx, input_index as int, script_pubkey@),
    {
        self.sig_op_count = self.sig_op_count + 1;
        let public_key_bytes = match self.pop_data() {
            Ok(v) => v,
            Err(e) => return Err(e),
        };
        let signature_bytes = match self.pop_data() {
            Ok(v) => v,
            Err(e) => {
                assert(self@.stack =~= Seq::<Seq<u8>>::empty());
                return Err(e);
            },
        };
        let public_key = match decode_public_key(public_key_bytes.as_slice()) {
            Some(k) => k,
            None => return Err(ScriptError::VerificationFailed),
        };
        let signature = match decode_signature(signature_bytes.as_slice()) {
            Some(sg) => sg,
            None => return Err(ScriptError::VerificationFailed),
        };
        let sighash = match calculate_sighash(tx, input_index, script_pubkey) {
            Ok(h) => h,
            Err(e) => return Err(e),
        };
        let ok = ed25519_verify(&public_key, sighash.as_slice(), &signature);
        self.push_data(bool_item(ok));
        Ok(())
    }

    /// Pops the top `n` items, returned top first.
    fn pop_top_first(&mut self, n: usize) -> (r: Vec<Vec<u8>>)
        requires
            n <= old(self)@.stack.len(),
        ensures
            byte_lists(r@) == top_first(old(self)@.stack, n as nat),
            r@.len() == n,
            final(self)@ == old(self)@.with_stack(old(self)@.stack.take(old(self)@.stack.len() - n)),
    {
        let ghost m0 = self@;
        let ghost s1 = self@.stack;
        let mut items: Vec<Vec<u8>> = Vec::new();
        let mut i: usize = 0;
        assert(s1.take(s1.len() - 0) =~= s1);
        while i < n
            invariant
                i <= n <= s1.len(),
                s1 == m0.stack,
                self@ == m0.with_stack(s1.take(s1.len() - i)),
                items@.len() == i,
                forall|j: int| 0 <= j < i ==> #[trigger] items@[j]@ == s1[s1.len() - 1 - j],
            decreases n - i,
        {
            let k = match self.pop_data() {
                Ok(v) => v,
                Err(_) => {
                    assert(false);
                    Vec::new()
                },
            };
            items.push(k);
            i = i + 1;
            assert(s1.take(s1.len() - (i - 1)).drop_last() =~= s1.take(s1.len() - i));
        }
        assert(byte_lists(items@) =~= top_first(s1, n as nat));
        items
    }

    // OP_CHECKMULTISIG
    #[verifier::rlimit(40)]
    pub fn op_checkmultisig(&mut self, tx: &Transaction, input_index: usize, script_pubkey: &[u8]) -> (r: Result<(), ScriptError>)
        requires
            old(self)@.sig_op_count < usize::MAX,
        ensures
            (final(self)@, r) == spec_op_checkmultisig(old(self)@, *tx, input_index as int, script_pubkey@),
    {
        self.sig_op_count = self.sig_op_count + 1;
        let ghost m1 = self@;
        let n_item = match self.pop_data() {
            Ok(v) => v,
            Err(e) => return Err(e),
        };
        if n_item.len() == 0 {
            return Err(ScriptError::InvalidStackState);
        }
        let num_public_keys = n_item[0] as usize;
        if num_public_keys > self.stack.len() {
            return Err(ScriptError::StackUnderflow);
        }
        let ghost s1 = self@.stack;
        let public_keys = self.pop_top_first(num_public_keys);
        let ghost s2 = self@.stack;
        let m_item = match self.pop_data() {
            Ok(v) => v,
            Err(e) => return Err(e),
        };
        if m_item.len() == 0 {
            return Err(ScriptError::InvalidStackState);
        }
        let num_signatures = m_item[0] as usize;
        if num_signatures > self.stack.len() {
            return Err(ScriptError::StackUnderflow);
        }
        let ghost s3 = self@.stack;
        let signatures = self.pop_top_first(num_signatures);
        match self.pop_data() {
            Ok(_) => {},
            Err(e) => return Err(e),
        }
        let message = match calculate_sighash(tx, input_index, script_pubkey) {
            Ok(h) => h,
            Err(e) => return Err(e),
        };
        let verified_signatures = match count_matching(&signatures, &public_keys, message.as_slice()) {
            Ok(c) => c,
            Err(_) => return Err(ScriptError::VerificationFailed),
        };
        self.push_data(bool_item(verified_signatures >= num_signatures));
        Ok(())
    }

    // OP_CHECKSIGVERIFY
    fn op_checksigverify(&mut self, tx: &Transaction, input_index: usize, script_pubkey: &[u8]) -> (r: Result<(), ScriptError>)
        requires
            old(self)@.sig_op_count < usize::MAX,
        ensures
            (final(self)@, r) == then_verify(spec_op_checksig(old(self)@, *tx, input_index as int, script_pubkey@)),
    {
        match self.op_checksig(tx, input_index, script_pubkey) {
            Ok(()) => {},
            Err(e) => return Err(e),
        }
        self.op_verify()
    }

    // OP_CHECKMULTISIGVERIFY
    fn op_checkmultisigverify(&mut self, tx: &Transaction, input_index: usize, script_pubkey: &[u8]) -> (r: Result<(), ScriptError>)
        requires
            old(self)@.sig_op_count < usize::MAX,
        ensures
            (final(self)@, r) == then_verify(spec_op_checkmultisig(old(self)@, *tx, input_index as int, script_pubkey@)),
    {
        match self.op_checkmultisig(tx, input_index, script_pubkey) {
            Ok(()) => {},
            Err(e) => return Err(e),
        }
        self.op_verify()
    }

    // OP_CHECKLOCKTIMEVERIFY
    fn op_checklocktimeverify(&mut self, tx: &Transaction, current_block_height: u64) -> (r: Result<(), ScriptError>)
        requires
            height_in_bounds(current_block_height),
        ensures
            (final(self)@, r) == spec_op_checklocktimeverify(old(self)@, *tx, current_block_height),
    {
        let lock_time_bytes = match self.pop_data() {
            Ok(v) => v,
            Err(e) => return Err(e),
        };
        let lock_time = match ScriptEngine::as_u32(lock_time_bytes.as_slice()) {
            Ok(v) => v,
            Err(e) => return Err(e),
        };
        let tx_lock_time = tx.get_lock_time();
        if tx_lock_time == 0 {
            return Err(ScriptError::VerificationFailed);
        }
        if lock_time > tx_lock_time {
            return Err(ScriptError::VerificationFailed);
        }
        if lock_time < LOCKTIME_THRESHOLD {
            if current_block_height < lock_time as u64 {
                return Err(ScriptError::VerificationFailed);
            }
        } else {
            let estimated_timestamp = current_block_height * 60;
            if estimated_timestamp < lock_time as u64 {
                return Err(ScriptError::VerificationFailed);
            }
        }
        Ok(())
    }

    // OP_CHECKSEQUENCEVERIFY
    fn op_checksequenceverify(&mut self, tx: &Transaction, current_block_height: u64, input_index: usize) -> (r: Result<(), ScriptError>)
        requires
            height_in_bounds(current_block_height),
        ensures
            (final(self)@, r) == spec_op_checksequenceverify(old(self)@, *tx, input_index as int),
    {
        let relative_sequence_bytes = match self.pop_data() {
            Ok(v) => v,
            Err(e) => return Err(e),
        };
        let relative_sequence = match ScriptEngine::as_u32(relative_sequence_bytes.as_slice()) {
            Ok(v) => v,
            Err(e) => return Err(e),
        };
        let tx_inputs = tx.get_inputs();
        if input_index >= tx_inputs.len() {
            return Err(ScriptError::VerificationFailed);
        }
        let tx_input_sequence = tx_inputs[input_index].sequence;
        if (tx_input_sequence & 0x8000_0000u32) != 0 {
            return Ok(());
        }
        let locktime_is_seconds = (relative_sequence & 0x40_0000u32) != 0;
        let sequence_is_relative = (relative_sequence & 0x8000_0000u32) == 0;
        if !sequence_is_relative {
            return Ok(());
        }
        let masked_sequence = relative_sequence & 0xffffu32;
        let masked_input_sequence = tx_input_sequence & 0xffffu32;
        if masked_input_sequence < masked_sequence {
            return Err(ScriptError::VerificationFailed);
        }
        if locktime_is_seconds {
            let _current_time = current_block_height * 60;
        }
        Ok(())
    }

    /// Reads `num_bytes` bytes of the script at `ip` and moves `ip` past them.
    fn read_bytes(&self, script: &[u8], ip: &mut usize, num_bytes: usize) -> (r: Result<Vec<u8>, ScriptError>)
        requires
            *old(ip) <= script@.len(),
        ensures
            *old(ip) + num_bytes > script@.len() ==> r == Err::<Vec<u8>, ScriptError>(ScriptError::ScriptTooLarge) && *final(ip) == *old(ip),
            *old(ip) + num_bytes <= script@.len() ==> (r matches Ok(d) && d@ == script@.subrange(*old(ip) as int, *old(ip) + num_bytes) && *final(ip) == *old(ip) + num_bytes),
    {
        if num_bytes > script.len() - *ip {
            return Err(ScriptError::ScriptTooLarge);
        }
        let data = copy_range(script, *ip, *ip + num_bytes);
        *ip = *ip + num_bytes;
        Ok(data)
    }

    /// Pushes the bytes that follow a little-endian length of `len_bytes` bytes.
    fn push_data_n(&mut self, script: &[u8], ip: &mut usize, len_bytes: usize) -> (r: Result<(), ScriptError>)
        requires
            *old(ip) <= script@.len(),
            1 <= len_bytes <= 4,
        ensures
            (final(self)@, *final(ip) as nat, r) == spec_push_n(old(self)@, script@, *old(ip) as nat, len_bytes as nat),
    {
        let len_data = match self.read_bytes(script, ip, len_bytes) {
            Ok(d) => d,
            Err(e) => return Err(e),
        };
        let len = match ScriptEngine::as_usize(len_data.as_slice()) {
            Ok(n) => n,
            Err(e) => return Err(e),
        };
        proof {
            lemma_le_value_bound(len_data@);
            lemma_pow256_mono(len_data@.len(), 4);
            lemma_pow256_values();
        }
        assert(len as nat == le_value(len_data@));
        let data = match self.read_bytes(script, ip, len) {
            Ok(d) => d,
            Err(e) => return Err(e),
        };
        self.push_data(data);
        Ok(())
    }
}

/// The context of a run.
pub open spec fn make_ctx(tx: Transaction, input_index: int, script_pubkey: Seq<u8>, height: u64) -> ScriptContext {
    ScriptContext { tx, input_index, script_pubkey, height }
}

/// An instruction changes neither the instruction counter, nor the skip depth or the
/// signature counter by more than one, and leaves the pointer inside the script.
#[verifier::rlimit(40)]
pub proof fn lemma_dispatch_bounds(op: Opcode, m: EngineModel, script: Seq<u8>, ip: nat, c: ScriptContext)
    requires
        ip <= script.len(),
    ensures
        ({
            let (m2, ip2, r) = spec_dispatch(op, m, script, ip, c);
            &&& m2.opcode_count == m.opcode_count
            &&& m2.skip_depth <= m.skip_depth + 1
            &&& m2.sig_op_count <= m.sig_op_count + 1
            &&& ip <= ip2 <= script.len()
        }),
{
    reveal(spec_dispatch);
    match op {
        Opcode::Op0 => {},
        Opcode::OpPushdata1 => {},
        Opcode::OpPushdata2 => {},
        Opcode::OpPushdata4 => {},
        Opcode::Op1 => {},
        Opcode::Op2 => {},
        Opcode::Op3 => {},
        Opcode::Op4 => {},
        Opcode::Op5 => {},
        Opcode::Op6 => {},
        Opcode::Op7 => {},
        Opcode::Op8 => {},
        Opcode::Op9 => {},
        Opcode::Op10 => {},
        Opcode::Op11 => {},
        Opcode::Op12 => {},
        Opcode::Op13 => {},
        Opcode::Op14 => {},
        Opcode::Op15 => {},
        Opcode::Op16 => {},
        Opcode::OpDup => {},
        Opcode::OpHash160 => {},
        Opcode::OpEqual => {},
        Opcode::OpEqualverify => {},
        Opcode::OpVerify => {},
        Opcode::OpCheckSig => {},
        Opcode::OpCheckMultiSig => {},
        Opcode::OpCheckLockTimeVerify => {},
        Opcode::OpCheckSequenceVerify => {},
        Opcode::OpReturn => {},
        Opcode::OpNop => {},
        Opcode::OpInvalidOpcode => {},
        Opcode::OpRipemd160 => {},
        Opcode::OpSha1 => {},
        Opcode::OpSha256 => {},
        Opcode::OpHash256 => {},
        Opcode::OpCodeSeparator => {},
        Opcode::OpCheckSigVerify => {},
        Opcode::OpCheckMultiSigVerify => {},
        Opcode::OpIf => {},
        Opcode::OpNotIf => {},
        Opcode::OpElse => {},
        Opcode::OpEndIf => {},
        Opcode::OpToAltStack => {},
        Opcode::OpFromAltStack => {},
        Opcode::OpDrop => {},
        Opcode::OpNip => {},
        Opcode::OpOver => {},
        Opcode::OpPick => {},
        Opcode::OpRoll => {},
        Opcode::OpRot => {},
        Opcode::OpSwap => {},
        Opcode::OpTuck => {},
        Opcode::Op2Drop => {},
        Opcode::Op2Dup => {},
        Opcode::Op3Dup => {},
        Opcode::Op2Over => {},
        Opcode::Op2Rot => {},
        Opcode::Op2Swap => {},
        Opcode::OpCat => {},
        Opcode::OpSubStr => {},
        Opcode::OpLeft => {},
        Opcode::OpRight => {},
        Opcode::OpSize => {},
        Opcode::OpInvert => {},
        Opcode::OpAnd => {},
        Opcode::OpOr => {},
        Opcode::OpXor => {},
        Opcode::Unassigned => {},
    }
}

/// A single-byte item.
fn small_item(n: u8) -> (r: Vec<u8>)
    ensures
        r@ == seq![n],
{
    let mut v: Vec<u8> = Vec::new();
    v.push(n);
    assert(v@ =~= seq![n]);
    v
}

impl ScriptEngine {
    #[verifier::rlimit(60)]
    fn exec_op(
        &mut self,
        op: Opcode,
        script: &[u8],
        ip: &mut usize,
        tx: &Transaction,
        current_block_height: u64,
        input_index: usize,
        script_pubkey: &[u8],
    ) -> (r: Result<(), ScriptError>)
        requires
            *old(ip) <= script@.len(),
            old(self)@.skip_depth < usize::MAX,
            old(self)@.sig_op_count < usize::MAX,
            height_in_bounds(current_block_height),
        ensures
            (final(self)@, *final(ip) as nat, r) == spec_dispatch(
                op,
                old(self)@,
                script@,
                *old(ip) as nat,
                make_ctx(*tx, input_index as int, script_pubkey@, current_block_height),
            ),
    {
        proof {
            reveal(spec_dispatch);
        }
        match op {
            Opcode::Op0 => {
                let e: Vec<u8> = Vec::new();
                assert(e@ =~= Seq::<u8>::empty());
                self.push_data(e);
                Ok(())
            },
            Opcode::OpPushdata1 => self.push_data_n(script, ip, 1),
            Opcode::OpPushdata2 => self.push_data_n(script, ip, 2),
            Opcode::OpPushdata4 => self.push_data_n(script, ip, 4),
            Opcode::Op1 => {
                self.push_data(small_item(1));
                Ok(())
            },
            Opcode::Op2 => {
                self.push_data(small_item(2));
                Ok(())
            },
            Opcode::Op3 => {
                self.push_data(small_item(3));
                Ok(())
            },
            Opcode::Op4 => {
                self.push_data(small_item(4));
                Ok(())
            },
            Opcode::Op5 => {
                self.push_data(small_item(5));
                Ok(())
            },
            Opcode::Op6 => {
                self.push_data(small_item(6));
                Ok(())
            },
            Opcode::Op7 => {
                self.push_data(small_item(7));
                Ok(())
            },
            Opcode::Op8 => {
                self.push_data(small_item(8));
                Ok(())
            },
            Opcode::Op9 => {
                self.push_data(small_item(9));
                Ok(())
            },
            Opcode::Op10 => {
                self.push_data(small_item(10));
                Ok(())
            },
            Opcode::Op11 => {
                self.push_data(small_item(11));
                Ok(())
            },
            Opcode::Op12 => {
                self.push_data(small_item(12));
                Ok(())
            },
            Opcode::Op13 => {
                self.push_data(small_item(13));
                Ok(())
            },
            Opcode::Op14 => {
                self.push_data(small_item(14));
                Ok(())
            },
            Opcode::Op15 => {
                self.push_data(small_item(15));
                Ok(())
            },
            Opcode::Op16 => {
                self.push_data(small_item(16));
                Ok(())
            },
            Opcode::OpDup => self.op_dup(),
            Opcode::OpHash160 => self.op_hash160(),
            Opcode::OpEqual => self.op_equal(),
            Opcode::OpEqualverify => self.op_equal_verify(),
            Opcode::OpVerify => self.op_verify(),
            Opcode::OpCheckSig => self.op_checksig(tx, input_index, script_pubkey),
            Opcode::OpCheckMultiSig => self.op_checkmultisig(tx, input_index, script_pubkey),
            Opcode::OpCheckLockTimeVerify => self.op_checklocktimeverify(tx, current_block_height),
            Opcode::OpCheckSequenceVerify => self.op_checksequenceverify(
                tx,
                current_block_height,
                input_index,
            ),
            Opcode::OpReturn => Err(ScriptError::OpReturn),
            Opcode::OpNop => Ok(()),
            Opcode::OpInvalidOpcode => Err(ScriptError::InvalidOpcode),
            Opcode::OpRipemd160 => self.op_ripemd160(),
            Opcode::OpSha1 => self.op_sha1(),
            Opcode::OpSha256 => self.op_sha256(),
            Opcode::OpHash256 => self.op_hash256(),
            Opcode::OpCodeSeparator => self.op_codeseparator(),
            Opcode::OpCheckSigVerify => self.op_checksigverify(tx, input_index, script_pubkey),
            Opcode::OpCheckMultiSigVerify => self.op_checkmultisigverify(
                tx,
                input_index,
                script_pubkey,
            ),
            Opcode::OpIf => self.op_if(),
            Opcode::OpNotIf => self.op_notif(),
            Opcode::OpElse => self.op_else(),
            Opcode::OpEndIf => self.op_endif(),
            Opcode::OpToAltStack => self.op_toaltstack(),
            Opcode::OpFromAltStack => self.op_fromaltstack(),
            Opcode::OpDrop => self.op_drop(),
            Opcode::OpNip => self.op_nip(),
            Opcode::OpOver => self.op_over(),
            Opcode::OpPick => self.op_pick(),
            Opcode::OpRoll => self.op_roll(),
            Opcode::OpRot => self.op_rot(),
            Opcode::OpSwap => self.op_swap(),
            Opcode::OpTuck => self.op_tuck(),
            Opcode::Op2Drop => self.op_2drop(),
            Opcode::Op2Dup => self.op_2dup(),
            Opcode::Op3Dup => self.op_3dup(),
            Opcode::Op2Over => self.op_2over(),
            Opcode::Op2Rot => self.op_2rot(),
            Opcode::Op2Swap => self.op_2swap(),
            Opcode::OpCat => self.op_cat(),
            Opcode::OpSubStr => self.op_substr(),
            Opcode::OpLeft => self.op_left(),
            Opcode::OpRight => self.op_right(),
            Opcode::OpSize => self.op_size(),
            Opcode::OpInvert => self.op_invert(),
            Opcode::OpAnd => self.op_and(),
            Opcode::OpOr => self.op_or(),
            Opcode::OpXor => self.op_xor(),
            Opcode::Unassigned => Err(ScriptError::InvalidOpcode),
        }
    }

    /// Runs a script on the machine as it stands: instruction by instruction until the end
    /// of the script or the first failure, within the instruction and stack limits.
    pub fn execute(
        &mut self,
        script: &[u8],
        message: &[u8],
        tx: &Transaction,
        current_block_height: u64,
        input_index: usize,
        script_pubkey: &[u8],
    ) -> (r: Result<(), ScriptError>)
        requires
            counters_in_bounds(old(self)@),
            height_in_bounds(current_block_height),
        ensures
            (final(self)@, r) == spec_execute(
                old(self)@,
                script@,
                make_ctx(*tx, input_index as int, script_pubkey@, current_block_height),
            ),
            final(self)@.sig_op_count <= old(self)@.sig_op_count + MAX_OPCODE_COUNT,
            final(self)@.skip_depth <= old(self)@.skip_depth + MAX_OPCODE_COUNT,
            old(self)@.stack.len() <= MAX_STACK_DEPTH && r is Ok ==> final(self)@.stack.len() <= MAX_STACK_DEPTH,
    {
        proof {
            if self@.stack.len() <= MAX_STACK_DEPTH {
                law_stack_bounded_after_success(self@, script@, make_ctx(*tx, input_index as int, script_pubkey@, current_block_height));
            }
        }
        if script.len() > MAX_SCRIPT_BYTES {
            return Err(ScriptError::ScriptTooLarge);
        }
        let ghost c = make_ctx(*tx, input_index as int, script_pubkey@, current_block_height);
        let ghost target = spec_run(self@, script@, 0, c);
        let ghost m0 = self@;
        let mut ip: usize = 0;
        while ip < script.len()
            invariant
                ip <= script@.len(),
                c == make_ctx(*tx, input_index as int, script_pubkey@, current_block_height),
                height_in_bounds(current_block_height),
                counters_in_bounds(m0),
                m0 == old(self)@,
                target == spec_execute(m0, script@, c),
                script@.len() <= MAX_SCRIPT_BYTES,
                spec_run(self@, script@, ip as nat, c) == target,
                self@.opcode_count >= m0.opcode_count,
                self@.opcode_count <= MAX_OPCODE_COUNT || self@.opcode_count == m0.opcode_count,
                self@.skip_depth <= m0.skip_depth + (self@.opcode_count - m0.opcode_count),
                self@.sig_op_count <= m0.sig_op_count + (self@.opcode_count - m0.opcode_count),
            decreases script@.len() - ip,
        {
            if self.opcode_count >= MAX_OPCODE_COUNT {
                assert(spec_step(self@, script@, ip as nat, c).2 == Some(ScriptError::TooManyOpcodes));
                assert(spec_run(self@, script@, ip as nat, c) == (self@, Err::<(), ScriptError>(ScriptError::TooManyOpcodes)));
                return Err(ScriptError::TooManyOpcodes);
            }
            let ghost before = self@;
            let ghost ip0 = ip as nat;
            let opcode_byte = script[ip];
            ip = ip + 1;
            self.opcode_count = self.opcode_count + 1;
            let opcode = Opcode::from_byte(opcode_byte);
            if self.should_skip() {
                match opcode {
                    Opcode::OpIf | Opcode::OpNotIf => {
                        self.skip_depth = self.skip_depth + 1;
                    },
                    Opcode::OpElse => {
                        if self.skip_depth == 1 {
                            self.skip_depth = 0;
                        }
                    },
                    Opcode::OpEndIf => {
                        self.skip_depth = self.skip_depth - 1;
                    },
                    _ => {},
                }
                assert(self@ == before.with_opcode_count(before.opcode_count + 1).with_control(
                    before.control_stack,
                    spec_skip_adjust(opcode, before.skip_depth),
                ));
                continue ;
            }
            let ghost m1 = self@;
            let ghost ip1 = ip as nat;
            assert(m1 == before.with_opcode_count(before.opcode_count + 1));
            assert(opcode == spec_opcode(script@[ip0 as int]));
            proof {
                lemma_dispatch_bounds(opcode, m1, script@, ip1, c);
            }
            match self.exec_op(
                opcode,
                script,
                &mut ip,
                tx,
                current_block_height,
                input_index,
                script_pubkey,
            ) {
                Ok(()) => {},
                Err(e) => return Err(e),
            }
            assert(spec_step(before, script@, ip0, c) == (
                self@,
                ip as nat,
                if self@.stack.len() > MAX_STACK_DEPTH {
                    Some(ScriptError::StackOverflow)
                } else {
                    None::<ScriptError>
                },
            ));
            if self.stack.len() > MAX_STACK_DEPTH {
                assert(spec_run(before, script@, ip0, c) == (self@, Err::<(), ScriptError>(ScriptError::StackOverflow)));
                return Err(ScriptError::StackOverflow);
            }
        }
        Ok(())
    }
}

pub proof fn lemma_count_verified_err_persists(sigs: Seq<Seq<u8>>, keys: Seq<Seq<u8>>, msg: Seq<u8>, i: nat, j: nat)
    requires
        i <= j,
        count_verified(sigs, keys, msg, i) is Err,
    ensures
        count_verified(sigs, keys, msg, j) is Err,
    decreases j - i,
{
    if i < j {
        lemma_count_verified_err_persists(sigs, keys, msg, i + 1, j);
    }
}

/// The little-endian value of at most eight bytes.
pub fn le_value_u64(v: &[u8]) -> (r: u64)
    requires
        v@.len() <= 8,
    ensures
        r == le_value(v@),
{
    let mut acc: u64 = 0;
    let mut i: usize = v.len();
    proof {
        lemma_pow256_values();
    }
    while i > 0
        invariant
            i <= v@.len() <= 8,
            acc == le_value(v@.subrange(i as int, v@.len() as int)),
        decreases i,
    {
        let ghost rest = v@.subrange(i as int, v@.len() as int);
        proof {
            lemma_le_value_bound(rest);
            lemma_pow256_mono(rest.len(), 7);
            lemma_pow256_values();
        }
        i = i - 1;
        let ghost cur = v@.subrange(i as int, v@.len() as int);
        assert(cur.drop_first() =~= rest);
        assert(cur[0] == v@[i as int]);
        assert(acc < 0x100_0000_0000_0000);
        acc = (v[i] as u64) + 256 * acc;
    }
    assert(v@.subrange(0, v@.len() as int) =~= v@);
    acc
}

/// A run that ends without failure leaves at most `MAX_STACK_DEPTH` items on the stack,
/// when it started with no more.
pub proof fn lemma_run_stack_bounded(m: EngineModel, script: Seq<u8>, ip: nat, c: ScriptContext)
    requires
        m.stack.len() <= MAX_STACK_DEPTH,
    ensures
        spec_run(m, script, ip, c).1 is Ok ==> spec_run(m, script, ip, c).0.stack.len() <= MAX_STACK_DEPTH,
    decreases script.len() - ip,
{
    if ip < script.len() {
        let (m2, ip2, f) = spec_step(m, script, ip, c);
        if f is None {
            assert(m2.stack.len() <= MAX_STACK_DEPTH);
            if ip < ip2 <= script.len() {
                lemma_run_stack_bounded(m2, script, ip2, c);
            }
        }
    }
}

/// A script that runs to its end without failure leaves at most `MAX_STACK_DEPTH` items on
/// the stack, when it started with no more: a step that leaves more fails with
/// `StackOverflow`.
pub proof fn law_stack_bounded_after_success(m: EngineModel, script: Seq<u8>, c: ScriptContext)
    requires
        m.stack.len() <= MAX_STACK_DEPTH,
    ensures
        spec_execute(m, script, c).1 is Ok ==> spec_execute(m, script, c).0.stack.len() <= MAX_STACK_DEPTH,
{
    lemma_run_stack_bounded(m, script, 0, c);
}

/// OP_ROT on a stack whose top three items are `x1`, `x2`, `x3` (`x3` on top) succeeds and
/// leaves `x2`, `x3`, `x1`, with `x1` on top; the items below stay, and so does the rest of
/// the machine. On fewer than three items it fails with `StackUnderflow`.
pub proof fn law_op_rot(m: EngineModel)
    ensures
        ({
            let s = m.stack;
            let n = s.len() as int;
            let (m2, r) = spec_op_rot(m);
            &&& n >= 3 ==> r is Ok && m2.stack.len() == n && m2.stack.take(n - 3) == s.take(n - 3)
                && m2.stack[n - 3] == s[n - 2] && m2.stack[n - 2] == s[n - 1] && m2.stack[n - 1] == s[n - 3]
                && m2.alt_stack == m.alt_stack && m2.opcode_count == m.opcode_count && m2.sig_op_count == m.sig_op_count
                && m2.control_stack == m.control_stack && m2.skip_depth == m.skip_depth
            &&& n < 3 ==> r == Err::<(), ScriptError>(ScriptError::StackUnderflow)
        }),
{
    let s = m.stack;
    let n = s.len() as int;
    if n >= 3 {
        let t = s.skip(n - 3);
        assert(t[0] == s[n - 3] && t[1] == s[n - 2] && t[2] == s[n - 1]);
    }
}

/// An instruction that completes but leaves more than `MAX_STACK_DEPTH` items on the stack
/// stops the run there with `StackOverflow`.
pub proof fn law_overflow_stops_run(m: EngineModel, script: Seq<u8>, ip: nat, c: ScriptContext)
    requires
        ip < script.len(),
        m.opcode_count < MAX_OPCODE_COUNT,
        m.skip_depth == 0,
        spec_dispatch(spec_opcode(script[ip as int]), m.with_opcode_count(m.opcode_count + 1), script, ip + 1, c).2 is Ok,
        spec_dispatch(spec_opcode(script[ip as int]), m.with_opcode_count(m.opcode_count + 1), script, ip + 1, c).0.stack.len()
            > MAX_STACK_DEPTH,
    ensures
        spec_run(m, script, ip, c).1 == Err::<(), ScriptError>(ScriptError::StackOverflow),
{
    assert(m.with_opcode_count(m.opcode_count + 1).skip_depth == 0);
}

/// No instruction lowers the count of signature operations.
proof fn lemma_dispatch_sig_ops(op: Opcode, m: EngineModel, script: Seq<u8>, ip: nat, c: ScriptContext)
    ensures
        spec_dispatch(op, m, script, ip, c).0.sig_op_count >= m.sig_op_count,
{
    reveal(spec_dispatch);
}

/// A run never lowers the count of signature operations.
pub proof fn lemma_run_sig_ops(m: EngineModel, script: Seq<u8>, ip: nat, c: ScriptContext)
    ensures
        spec_run(m, script, ip, c).0.sig_op_count >= m.sig_op_count,
    decreases script.len() - ip,
{
    if ip < script.len() {
        let (m2, ip2, f) = spec_step(m, script, ip, c);
        if m.opcode_count < MAX_OPCODE_COUNT {
            let op = spec_opcode(script[ip as int]);
            let m1 = m.with_opcode_count(m.opcode_count + 1);
            if m1.skip_depth == 0 {
                lemma_dispatch_sig_ops(op, m1, script, ip + 1, c);
            }
        }
        assert(m2.sig_op_count >= m.sig_op_count);
        if f is None && ip < ip2 <= script.len() {
            lemma_run_sig_ops(m2, script, ip2, c);
        }
    }
}

/// Running a script never lowers the count of signature operations: every instruction
/// either leaves it or adds to it, also when the run fails.
pub proof fn law_sig_ops_never_fall(m: EngineModel, script: Seq<u8>, c: ScriptContext)
    ensures
        spec_execute(m, script, c).0.sig_op_count >= m.sig_op_count,
{
    lemma_run_sig_ops(m, script, 0, c);
}

} // verus!
