//! The message a signature in a script signs: the spending transaction with every
//! unlocking script blanked except the signed input's, which is replaced by the locking
//! script being satisfied.
use vstd::prelude::*;
use crate::bytes::{copy_bytes, push_u32_le, u32_le};
use crate::crypto::{blake3_digest, blake3_hash};
use crate::encoding::{encode_transaction, enc_transaction};
use crate::types::{
    byte_lists, copy_byte_lists, copy_outputs, inputs_view, outputs_view, Transaction,
    TransactionModel, TxInput, TxInputModel,
};
use crate::script::engine::ScriptError;

verus! {

/// The inputs as the signed message lists them.
pub open spec fn sighash_inputs(ins: Seq<TxInput>, index: int, script_pubkey: Seq<u8>) -> Seq<
    TxInputModel,
> {
    Seq::new(
        ins.len(),
        |i: int|
            TxInputModel {
                previous_output: ins[i].previous_output,
                script_sig: if i == index {
                    script_pubkey
                } else {
                    Seq::empty()
                },
                sequence: ins[i].sequence,
                witness: byte_lists(ins[i].witness@),
            },
    )
}

/// The transaction as the signed message encodes it: fee and witness dropped; the variants
/// other than standard and coinbase are signed as a standard version-1 transaction with no
/// lock time.
pub open spec fn sighash_transaction(tx: Transaction, index: int, script_pubkey: Seq<u8>) -> TransactionModel {
    let ins = sighash_inputs(tx.spec_inputs(), index, script_pubkey);
    match tx {
        Transaction::Standard { version, outputs, lock_time, .. } => TransactionModel::Standard {
            version,
            inputs: ins,
            outputs: outputs_view(outputs@),
            lock_time,
            fee: 0,
            witness: Seq::empty(),
        },
        Transaction::Coinbase { version, outputs, lock_time, .. } => TransactionModel::Coinbase {
            version,
            inputs: ins,
            outputs: outputs_view(outputs@),
            lock_time,
            witness: Seq::empty(),
        },
        _ => TransactionModel::Standard {
            version: 1,
            inputs: ins,
            outputs: outputs_view(tx.spec_outputs()),
            lock_time: 0,
            fee: 0,
            witness: Seq::empty(),
        },
    }
}

/// The message that a signature for input `index` signs.
pub open spec fn spec_sighash(tx: Transaction, index: int, script_pubkey: Seq<u8>) -> [u8; 32] {
    blake3_digest(enc_transaction(sighash_transaction(tx, index, script_pubkey)) + u32_le(1))
}

fn build_sighash_inputs(ins: &Vec<TxInput>, index: usize, script_pubkey: &[u8]) -> (r: Vec<TxInput>)
    ensures
        inputs_view(r@) == sighash_inputs(ins@, index as int, script_pubkey@),
{
    let mut r: Vec<TxInput> = Vec::new();
    let mut i: usize = 0;
    while i < ins.len()
        invariant
            i <= ins@.len(),
            r@.len() == i,
            forall|j: int|
                0 <= j < i ==> #[trigger] r@[j]@ == sighash_inputs(ins@, index as int, script_pubkey@)[j],
        decreases ins@.len() - i,
    {
        let script_sig = if i == index {
            copy_bytes(script_pubkey)
        } else {
            Vec::new()
        };
        let input = TxInput {
            previous_output: ins[i].previous_output,
            script_sig,
            sequence: ins[i].sequence,
            witness: copy_byte_lists(&ins[i].witness),
        };
        proof {
            if i != index {
                assert(input.script_sig@ =~= Seq::<u8>::empty());
            }
        }
        r.push(input);
        i = i + 1;
    }
    assert(inputs_view(r@) =~= sighash_inputs(ins@, index as int, script_pubkey@));
    r
}

/// The message that a signature for input `input_index` signs; fails when the
/// transaction has no such input.
pub fn calculate_sighash(tx: &Transaction, input_index: usize, script_pubkey: &[u8]) -> (r: Result<[u8; 32], ScriptError>)
    ensures
        input_index >= tx.spec_inputs().len() ==> r == Err::<[u8; 32], ScriptError>(
            ScriptError::VerificationFailed,
        ),
        input_index < tx.spec_inputs().len() ==> (r matches Ok(h) && h == spec_sighash(
            *tx,
            input_index as int,
            script_pubkey@,
        )),
{
    let inputs = tx.get_inputs();
    if input_index >= inputs.len() {
        return Err(ScriptError::VerificationFailed);
    }
    let sighash_inputs = build_sighash_inputs(inputs, input_index, script_pubkey);
    let sighash_tx = match tx {
        Transaction::Standard { version, outputs, lock_time, .. } => Transaction::Standard {
            version: *version,
            inputs: sighash_inputs,
            outputs: copy_outputs(outputs),
            lock_time: *lock_time,
            fee: 0,
            witness: Vec::new(),
        },
        Transaction::Coinbase { version, outputs, lock_time, .. } => Transaction::Coinbase {
            version: *version,
            inputs: sighash_inputs,
            outputs: copy_outputs(outputs),
            lock_time: *lock_time,
            witness: Vec::new(),
        },
        _ => Transaction::Standard {
            version: 1,
            inputs: sighash_inputs,
            outputs: copy_outputs(tx.get_outputs()),
            lock_time: 0,
            fee: 0,
            witness: Vec::new(),
        },
    };
    assert(sighash_tx@ == sighash_transaction(*tx, input_index as int, script_pubkey@)) by {
        assert(byte_lists(Seq::<Vec<u8>>::empty()) =~= Seq::<Seq<u8>>::empty());
    }
    let mut data = encode_transaction(&sighash_tx);
    push_u32_le(&mut data, 1);
    Ok(blake3_hash(data.as_slice()))
}

} // verus!
