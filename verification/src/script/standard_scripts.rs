//! The standard script templates (pay to public key hash, pay to script hash): how they
//! are recognised, built and checked.
use vstd::prelude::*;
use crate::bytes::{bytes_eq, copy_range, extend_bytes, push_u16_le, push_u32_le, push_u64_le, u16_le, u32_le, u64_le};
use crate::crypto::{blake3_digest, blake3_hash, decode_public_key, decode_signature, ed25519_verifies, ed25519_verify, ripemd160, sha256, signature_decodes};
use crate::script::engine::{counters_in_bounds, hash160, key_decodes, make_ctx, spec_execute, EngineModel, Script, ScriptEngine, ScriptError, MAX_OPCODE_COUNT};
use crate::types::{Transaction, TxInput, TxOutput};

verus! {

/// The variable-length integer encoding of a count.
pub open spec fn varint(value: u64) -> Seq<u8> {
    if value < 0xfd {
        seq![value as u8]
    } else if value <= 0xffff {
        seq![0xfdu8] + u16_le(value as u16)
    } else if value <= 0xffff_ffff {
        seq![0xfeu8] + u32_le(value as u32)
    } else {
        seq![0xffu8] + u64_le(value)
    }
}

/// Encodes a count as a variable-length integer.
pub fn encode_varint(value: u64) -> (r: Vec<u8>)
    ensures
        r@ == varint(value),
{
    let mut result: Vec<u8> = Vec::new();
    if value < 0xfd {
        result.push(value as u8);
    } else if value <= 0xffff {
        result.push(0xfd);
        push_u16_le(&mut result, value as u16);
    } else if value <= 0xffff_ffff {
        result.push(0xfe);
        push_u32_le(&mut result, value as u32);
    } else {
        result.push(0xff);
        push_u64_le(&mut result, value);
    }
    assert(result@ =~= varint(value));
    result
}

/// The version the signed message of a standard script carries.
pub open spec fn signed_version(tx: Transaction) -> u32 {
    tx.spec_version()
}

pub open spec fn signed_input(i: TxInput, script: Seq<u8>) -> Seq<u8> {
    i.previous_output.txid@ + u32_le(i.previous_output.vout) + varint(script.len() as u64) + script
        + u32_le(i.sequence)
}

/// Inputs `0..n` as the signed message lists them; only input `index` carries a script,
/// the locking script being satisfied.
pub open spec fn signed_inputs(ins: Seq<TxInput>, index: int, script_pubkey: Seq<u8>, n: nat) -> Seq<u8>
    decreases n,
{
    if n == 0 {
        Seq::empty()
    } else {
        signed_inputs(ins, index, script_pubkey, (n - 1) as nat) + signed_input(
            ins[n - 1],
            if n - 1 == index {
                script_pubkey
            } else {
                Seq::empty()
            },
        )
    }
}

pub open spec fn signed_output(o: TxOutput) -> Seq<u8> {
    u64_le(o.value) + varint(o.script_pubkey@.len() as u64) + o.script_pubkey@
}

pub open spec fn signed_outputs(outs: Seq<TxOutput>, n: nat) -> Seq<u8>
    decreases n,
{
    if n == 0 {
        Seq::empty()
    } else {
        signed_outputs(outs, (n - 1) as nat) + signed_output(outs[n - 1])
    }
}

/// The bytes a standard-script signature for input `index` signs, before hashing.
pub open spec fn standard_sighash_preimage(tx: Transaction, index: int, script_pubkey: Seq<u8>) -> Seq<u8> {
    let ins = tx.spec_inputs();
    let outs = tx.spec_outputs();
    u32_le(signed_version(tx)) + varint(ins.len() as u64) + signed_inputs(ins, index, script_pubkey, ins.len())
        + varint(outs.len() as u64) + signed_outputs(outs, outs.len()) + u32_le(tx.spec_lock_time())
        + u32_le(1)
}

/// The message a standard-script signature for input `index` signs.
pub open spec fn standard_sighash(tx: Transaction, index: int, script_pubkey: Seq<u8>) -> [u8; 32] {
    blake3_digest(standard_sighash_preimage(tx, index, script_pubkey))
}

/// The message a standard-script signature for input `input_index` signs; fails when the
/// transaction has no such input.
fn calculate_sighash(tx: &Transaction, input_index: usize, script_pubkey: &[u8]) -> (r: Result<[u8; 32], ScriptError>)
    ensures
        input_index >= tx.spec_inputs().len() ==> r == Err::<[u8; 32], ScriptError>(ScriptError::VerificationFailed),
        input_index < tx.spec_inputs().len() ==> r == Ok::<[u8; 32], ScriptError>(standard_sighash(*tx, input_index as int, script_pubkey@)),
{
    let inputs = tx.get_inputs();
    if input_index >= inputs.len() {
        return Err(ScriptError::VerificationFailed);
    }
    let mut data: Vec<u8> = Vec::new();
    push_u32_le(&mut data, tx.get_version());
    let n_in = encode_varint(inputs.len() as u64);
    extend_bytes(&mut data, n_in.as_slice());
    let ghost start = data@;
    let mut i: usize = 0;
    while i < inputs.len()
        invariant
            i <= inputs@.len(),
            inputs@ == tx.spec_inputs(),
            input_index < inputs@.len(),
            data@ == start + signed_inputs(inputs@, input_index as int, script_pubkey@, i as nat),
        decreases inputs@.len() - i,
    {
        let input = &inputs[i];
        extend_bytes(&mut data, input.previous_output.txid.as_slice());
        push_u32_le(&mut data, input.previous_output.vout);
        if i == input_index {
            let n = encode_varint(script_pubkey.len() as u64);
            extend_bytes(&mut data, n.as_slice());
            extend_bytes(&mut data, script_pubkey);
        } else {
            let n = encode_varint(0);
            extend_bytes(&mut data, n.as_slice());
            assert(Seq::<u8>::empty().len() == 0);
        }
        push_u32_le(&mut data, input.sequence);
        i = i + 1;
        assert(data@ =~= start + signed_inputs(inputs@, input_index as int, script_pubkey@, i as nat));
    }
    let outputs = tx.get_outputs();
    let n_out = encode_varint(outputs.len() as u64);
    extend_bytes(&mut data, n_out.as_slice());
    let ghost start2 = data@;
    let mut j: usize = 0;
    while j < outputs.len()
        invariant
            j <= outputs@.len(),
            outputs@ == tx.spec_outputs(),
            data@ == start2 + signed_outputs(outputs@, j as nat),
        decreases outputs@.len() - j,
    {
        let output = &outputs[j];
        push_u64_le(&mut data, output.value);
        let n = encode_varint(output.script_pubkey.len() as u64);
        extend_bytes(&mut data, n.as_slice());
        extend_bytes(&mut data, output.script_pubkey.as_slice());
        j = j + 1;
        assert(data@ =~= start2 + signed_outputs(outputs@, j as nat));
    }
    push_u32_le(&mut data, tx.get_lock_time());
    push_u32_le(&mut data, 1);
    assert(data@ =~= standard_sighash_preimage(*tx, input_index as int, script_pubkey@));
    Ok(blake3_hash(data.as_slice()))
}

/// The pay-to-public-key-hash locking script for a 20-byte hash:
/// `OP_DUP OP_HASH160 <20 bytes> OP_EQUALVERIFY OP_CHECKSIG`.
pub open spec fn p2pkh_script(hash: Seq<u8>) -> Seq<u8> {
    seq![0x76u8, 0xa9u8, 0x14u8] + hash + seq![0x88u8, 0xacu8]
}

/// The pay-to-script-hash locking script for a 20-byte hash: `OP_HASH160 <20 bytes> OP_EQUAL`.
pub open spec fn p2sh_script(hash: Seq<u8>) -> Seq<u8> {
    seq![0xa9u8, 0x14u8] + hash + seq![0x87u8]
}

/// Whether bytes have the pay-to-public-key-hash form.
pub open spec fn spec_is_p2pkh(b: Seq<u8>) -> bool {
    b.len() == 25 && b[0] == 0x76 && b[1] == 0xa9 && b[2] == 0x14 && b[23] == 0x88 && b[24] == 0xac
}

/// Whether bytes have the pay-to-script-hash form.
pub open spec fn spec_is_p2sh(b: Seq<u8>) -> bool {
    b.len() == 23 && b[0] == 0xa9 && b[1] == 0x14 && b[22] == 0x87
}

/// Standard script creation and recognition.
pub struct StandardScripts;

impl StandardScripts {
    /// Check if script is P2PKH.
    pub fn is_p2pkh(script: &Script) -> (r: bool)
        ensures
            r == spec_is_p2pkh(script.bytes@),
    {
        let bytes = script.as_bytes();
        bytes.len() == 25 && bytes[0] == 0x76 && bytes[1] == 0xa9 && bytes[2] == 0x14 && bytes[23]
            == 0x88 && bytes[24] == 0xac
    }

    /// Check if script is P2SH.
    pub fn is_p2sh(script: &Script) -> (r: bool)
        ensures
            r == spec_is_p2sh(script.bytes@),
    {
        let bytes = script.as_bytes();
        bytes.len() == 23 && bytes[0] == 0xa9 && bytes[1] == 0x14 && bytes[22] == 0x87
    }

    /// Create a P2PKH script from a 20-byte hash.
    pub fn create_p2pkh(hash: &[u8; 20]) -> (r: Script)
        ensures
            r.bytes@ == p2pkh_script(hash@),
            spec_is_p2pkh(r.bytes@),
    {
        let mut script_bytes: Vec<u8> = Vec::new();
        script_bytes.push(0x76);
        script_bytes.push(0xa9);
        script_bytes.push(0x14);
        extend_bytes(&mut script_bytes, hash.as_slice());
        script_bytes.push(0x88);
        script_bytes.push(0xac);
        assert(script_bytes@ =~= p2pkh_script(hash@));
        Script::new(script_bytes)
    }

    /// Create a P2SH script from a 20-byte hash.
    pub fn create_p2sh(hash: &[u8; 20]) -> (r: Script)
        ensures
            r.bytes@ == p2sh_script(hash@),
            spec_is_p2sh(r.bytes@),
    {
        let mut script_bytes: Vec<u8> = Vec::new();
        script_bytes.push(0xa9);
        script_bytes.push(0x14);
        extend_bytes(&mut script_bytes, hash.as_slice());
        script_bytes.push(0x87);
        assert(script_bytes@ =~= p2sh_script(hash@));
        Script::new(script_bytes)
    }
}

/// Every pay-to-public-key-hash script built from a hash is recognised as one, and the
/// hash sits at bytes 3 to 23.
pub proof fn law_p2pkh_roundtrip(hash: Seq<u8>)
    requires
        hash.len() == 20,
    ensures
        spec_is_p2pkh(p2pkh_script(hash)),
        p2pkh_script(hash).subrange(3, 23) == hash,
{
    assert(p2pkh_script(hash).subrange(3, 23) =~= hash);
}

/// Every pay-to-script-hash script built from a hash is recognised as one, and the hash
/// sits at bytes 2 to 22.
pub proof fn law_p2sh_roundtrip(hash: Seq<u8>)
    requires
        hash.len() == 20,
    ensures
        spec_is_p2sh(p2sh_script(hash)),
        p2sh_script(hash).subrange(2, 22) == hash,
{
    assert(p2sh_script(hash).subrange(2, 22) =~= hash);
}

/// What checking a pay-to-public-key-hash spend gives: the unlocking script must hold at
/// least 96 bytes, a signature in its first 64 and the public key in its last 32; the key
/// must hash to the one the locking script names and the signature must sign the input.
pub open spec fn spec_verify_p2pkh(script_sig: Seq<u8>, script_pubkey: Seq<u8>, tx: Transaction, index: int) -> Result<(), ScriptError> {
    if script_sig.len() < 96 {
        Err(ScriptError::VerificationFailed)
    } else if script_pubkey.len() != 25 || script_pubkey[0] != 0x76 || script_pubkey[1] != 0xa9 {
        Err(ScriptError::VerificationFailed)
    } else {
        let sig = script_sig.subrange(0, 64);
        let pk = script_sig.subrange(script_sig.len() - 32, script_sig.len() as int);
        if hash160(pk) != script_pubkey.subrange(3, 23) || !key_decodes(pk) || !signature_decodes(sig)
            || index >= tx.spec_inputs().len() || !ed25519_verifies(pk, standard_sighash(tx, index, script_pubkey)@, sig) {
            Err(ScriptError::VerificationFailed)
        } else {
            Ok(())
        }
    }
}

/// Verify a P2PKH (pay to public key hash) spend.
pub fn verify_p2pkh_script(script_sig: &Script, script_pubkey: &Script, tx: &Transaction, input_index: usize) -> (r: Result<(), ScriptError>)
    ensures
        r == spec_verify_p2pkh(script_sig.bytes@, script_pubkey.bytes@, *tx, input_index as int),
{
    let sig_bytes = script_sig.as_bytes();
    if sig_bytes.len() < 96 {
        return Err(ScriptError::VerificationFailed);
    }
    let signature_bytes = copy_range(sig_bytes, 0, 64);
    let pubkey_bytes = copy_range(sig_bytes, sig_bytes.len() - 32, sig_bytes.len());
    let pubkey_script = script_pubkey.as_bytes();
    if pubkey_script.len() != 25 || pubkey_script[0] != 0x76 || pubkey_script[1] != 0xa9 {
        return Err(ScriptError::VerificationFailed);
    }
    let expected_hash = copy_range(pubkey_script, 3, 23);
    let sha256_hash = sha256(pubkey_bytes.as_slice());
    let pubkey_hash = ripemd160(sha256_hash.as_slice());
    if !bytes_eq(pubkey_hash.as_slice(), expected_hash.as_slice()) {
        return Err(ScriptError::VerificationFailed);
    }
    let pubkey = match decode_public_key(pubkey_bytes.as_slice()) {
        Some(k) => k,
        None => return Err(ScriptError::VerificationFailed),
    };
    let signature = match decode_signature(signature_bytes.as_slice()) {
        Some(sg) => sg,
        None => return Err(ScriptError::VerificationFailed),
    };
    let sighash = match calculate_sighash(tx, input_index, pubkey_script) {
        Ok(h) => h,
        Err(e) => return Err(e),
    };
    if !ed25519_verify(&pubkey, sighash.as_slice(), &signature) {
        return Err(ScriptError::VerificationFailed);
    }
    Ok(())
}

/// The part of a pay-to-script-hash unlocking script taken as the redeem script: its last
/// 32 bytes, or all of it when shorter.
pub open spec fn redeem_part(script_sig: Seq<u8>) -> Seq<u8> {
    if script_sig.len() >= 32 {
        script_sig.subrange(script_sig.len() - 32, script_sig.len() as int)
    } else {
        script_sig
    }
}

/// What checking a pay-to-script-hash spend does to the machine and gives: the redeem
/// script must hash to the one the locking script names, then it runs on the machine.
pub open spec fn spec_verify_p2sh(m: EngineModel, script_sig: Seq<u8>, script_pubkey: Seq<u8>, tx: Transaction) -> (EngineModel, Result<(), ScriptError>) {
    if script_pubkey.len() != 23 || script_pubkey[0] != 0xa9 || script_pubkey[22] != 0x87 {
        (m, Err(ScriptError::VerificationFailed))
    } else if script_sig.len() == 0 {
        (m, Err(ScriptError::VerificationFailed))
    } else if hash160(redeem_part(script_sig)) != script_pubkey.subrange(2, 22) {
        (m, Err(ScriptError::VerificationFailed))
    } else {
        let (m2, r) = spec_execute(m, redeem_part(script_sig), make_ctx(tx, 0, script_pubkey, 0));
        (m2, if r is Err { Err(ScriptError::VerificationFailed) } else { Ok(()) })
    }
}

/// Verify a P2SH (pay to script hash) spend, running the redeem script on `script_engine`.
pub fn verify_p2sh_script(
    script_sig: &Script,
    script_pubkey: &Script,
    tx: &Transaction,
    _input_index: usize,
    script_engine: &mut ScriptEngine,
) -> (r: Result<(), ScriptError>)
    requires
        counters_in_bounds(old(script_engine)@),
    ensures
        (final(script_engine)@, r) == spec_verify_p2sh(old(script_engine)@, script_sig.bytes@, script_pubkey.bytes@, *tx),
{
    let pubkey_script = script_pubkey.as_bytes();
    if pubkey_script.len() != 23 || pubkey_script[0] != 0xa9 || pubkey_script[22] != 0x87 {
        return Err(ScriptError::VerificationFailed);
    }
    let expected_script_hash = copy_range(pubkey_script, 2, 22);
    let sig_bytes = script_sig.as_bytes();
    if sig_bytes.len() == 0 {
        return Err(ScriptError::VerificationFailed);
    }
    let script_len = sig_bytes.len();
    let redeem_script_start = if script_len >= 32 { script_len - 32 } else { 0 };
    let redeem_script = copy_range(sig_bytes, redeem_script_start, script_len);
    assert(redeem_script@ =~= redeem_part(sig_bytes@));
    let sha256_hash = sha256(redeem_script.as_slice());
    let script_hash = ripemd160(sha256_hash.as_slice());
    if !bytes_eq(script_hash.as_slice(), expected_script_hash.as_slice()) {
        return Err(ScriptError::VerificationFailed);
    }
    let redeem_script_obj = Script::new(redeem_script);
    let empty: Vec<u8> = Vec::new();
    match script_engine.execute(redeem_script_obj.bytes.as_slice(), empty.as_slice(), tx, 0, 0, pubkey_script) {
        Ok(()) => Ok(()),
        Err(_) => Err(ScriptError::VerificationFailed),
    }
}

} // verus!
