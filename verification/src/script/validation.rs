//! Checking the scripts of a transaction's inputs against the outputs they spend.
use vstd::prelude::*;
use crate::bytes::{copy_bytes, extend_bytes};
use crate::consensus::utxo_set::UtxoSet;
use crate::script::engine::{
    counters_in_bounds, height_in_bounds, make_ctx, spec_execute, spec_is_false, EngineModel,
    Script, ScriptEngine, ScriptError, MAX_OPCODE_COUNT, MAX_SCRIPT_BYTES, MAX_SIG_OPS,
};
use crate::script::standard_scripts::{
    spec_is_p2pkh, spec_is_p2sh, spec_verify_p2pkh, spec_verify_p2sh, verify_p2pkh_script,
    verify_p2sh_script, StandardScripts,
};
use crate::types::{OutPoint, Transaction, TxOutput, UtxoModel};

verus! {

/// Checks input `i` of a non-coinbase transaction: the spent output must be in the set,
/// and the unlocking script followed by the spent locking script must run, on a machine
/// reset for it, to a single true item. Gives the machine after the check and whether it
/// passed.
pub open spec fn spec_check_input(
    m: EngineModel,
    tx: Transaction,
    utxos: Map<OutPoint, UtxoModel>,
    height: u64,
    i: nat,
) -> (EngineModel, bool) {
    let ins = tx.spec_inputs();
    let op = ins[i as int].previous_output;
    if !utxos.dom().contains(op) {
        (m, false)
    } else {
        let spk = utxos[op].output.script_pubkey;
        let script = ins[i as int].script_sig@ + spk;
        let (m2, r) = spec_execute(m.reset(), script, make_ctx(tx, i as int, spk, height));
        if r is Err || m2.stack.len() == 0 {
            (m2, false)
        } else {
            let m3 = m2.with_stack(m2.stack.drop_last());
            (m3, !spec_is_false(m2.stack.last()) && m3.stack.len() == 0)
        }
    }
}

/// Checks inputs `i..` of a transaction in order, stopping at the first that fails; the
/// inputs of a coinbase are not checked.
pub open spec fn spec_validate_from(
    m: EngineModel,
    tx: Transaction,
    utxos: Map<OutPoint, UtxoModel>,
    height: u64,
    i: nat,
) -> (EngineModel, bool)
    decreases tx.spec_inputs().len() - i,
{
    if i >= tx.spec_inputs().len() {
        (m, true)
    } else if tx is Coinbase {
        spec_validate_from(m, tx, utxos, height, i + 1)
    } else {
        let (m2, ok) = spec_check_input(m, tx, utxos, height, i);
        if !ok {
            (m2, false)
        } else {
            spec_validate_from(m2, tx, utxos, height, i + 1)
        }
    }
}

/// The largest number of inputs whose signature operations the machine's counter can
/// hold when each input may run a full script.
pub const MAX_COUNTED_INPUTS: usize = 20_000_000;

/// The result of popping the final item of a run: it must be true and the last one.
pub open spec fn spec_final_check(m: EngineModel) -> (EngineModel, Result<(), ScriptError>) {
    if m.stack.len() == 0 {
        (m, Err(ScriptError::StackUnderflow))
    } else {
        let m2 = m.with_stack(m.stack.drop_last());
        if spec_is_false(m.stack.last()) || m2.stack.len() != 0 {
            (m2, Err(ScriptError::VerificationFailed))
        } else {
            (m2, Ok(()))
        }
    }
}

/// Runs the unlocking script and then the locking script on one machine, from `m`.
pub open spec fn spec_run_pair(m: EngineModel, script_sig: Seq<u8>, script_pubkey: Seq<u8>, tx: Transaction, index: int) -> (EngineModel, Result<(), ScriptError>) {
    let c = make_ctx(tx, index, script_pubkey, 0);
    let (m1, r1) = spec_execute(m, script_sig, c);
    if r1 is Err {
        (m1, r1)
    } else {
        spec_execute(m1, script_pubkey, c)
    }
}

/// What checking one input's scripts on a fresh machine gives.
pub open spec fn spec_verify_script(script_sig: Seq<u8>, script_pubkey: Seq<u8>, tx: Transaction, index: int) -> Result<(), ScriptError> {
    if script_sig.len() > MAX_SCRIPT_BYTES || script_pubkey.len() > MAX_SCRIPT_BYTES {
        Err(ScriptError::ScriptTooLarge)
    } else {
        let (m1, r1) = spec_run_pair(EngineModel::initial(), script_sig, script_pubkey, tx, index);
        if r1 is Err {
            r1
        } else {
            spec_final_check(m1).1
        }
    }
}

/// What checking one input's scripts does when signature operations are counted across a
/// transaction: the machine after it, the updated count and the result.
pub open spec fn spec_verify_with_count(
    m: EngineModel,
    script_sig: Seq<u8>,
    script_pubkey: Seq<u8>,
    tx: Transaction,
    index: int,
    count: usize,
) -> (EngineModel, usize, Result<(), ScriptError>) {
    if script_sig.len() > MAX_SCRIPT_BYTES || script_pubkey.len() > MAX_SCRIPT_BYTES {
        (m, count, Err(ScriptError::ScriptTooLarge))
    } else {
        let m0 = m.reset().with_sig_ops(count as nat);
        let (m1, r1) = spec_run_pair(m0, script_sig, script_pubkey, tx, index);
        if r1 is Err {
            (m1, count, r1)
        } else if m1.sig_op_count > MAX_SIG_OPS {
            (m1, m1.sig_op_count as usize, Err(ScriptError::TooManySigOps))
        } else {
            let (m2, r2) = spec_final_check(m1);
            (m2, m1.sig_op_count as usize, r2)
        }
    }
}

/// What checking one input's scripts, standard templates first, does and gives.
pub open spec fn spec_execute_standard(m: EngineModel, script_sig: Seq<u8>, script_pubkey: Seq<u8>, tx: Transaction, index: int) -> (EngineModel, Result<(), ScriptError>) {
    if spec_is_p2pkh(script_pubkey) {
        (m, spec_verify_p2pkh(script_sig, script_pubkey, tx, index))
    } else if spec_is_p2sh(script_pubkey) {
        spec_verify_p2sh(m, script_sig, script_pubkey, tx)
    } else {
        spec_execute(m.reset(), script_sig + script_pubkey, make_ctx(tx, index, script_pubkey, 0))
    }
}

impl ScriptEngine {
    /// Pops the final item of a run and checks it is true and the only one.
    fn final_check(&mut self) -> (r: Result<(), ScriptError>)
        ensures
            (final(self)@, r) == spec_final_check(old(self)@),
    {
        let result = match self.pop_data() {
            Ok(v) => v,
            Err(e) => return Err(e),
        };
        if ScriptEngine::is_false(result.as_slice()) || self.stack_len() != 0 {
            return Err(ScriptError::VerificationFailed);
        }
        Ok(())
    }

    fn check_input(&mut self, tx: &Transaction, utxo_set: &UtxoSet, input_index: usize, current_block_height: u64) -> (r: bool)
        requires
            height_in_bounds(current_block_height),
            input_index < tx.spec_inputs().len(),
            old(self)@.sig_op_count <= usize::MAX - 256,
        ensures
            (final(self)@, r) == spec_check_input(old(self)@, *tx, utxo_set@, current_block_height, input_index as nat),
            final(self)@.sig_op_count <= old(self)@.sig_op_count + MAX_OPCODE_COUNT,
            final(self)@.skip_depth <= MAX_OPCODE_COUNT || final(self)@ == old(self)@,
    {
        let inputs = tx.get_inputs();
        let input = &inputs[input_index];
        let outpoint = input.previous_output;
        let prev_output = match utxo_set.get_utxo(&outpoint) {
            Some(output) => output,
            None => return false,
        };
        let mut script = copy_bytes(input.script_sig.as_slice());
        extend_bytes(&mut script, prev_output.output.script_pubkey.as_slice());
        self.reset_for_script();
        let tx_hash = tx.txid();
        match self.execute(
            script.as_slice(),
            tx_hash.as_slice(),
            tx,
            current_block_height,
            input_index,
            prev_output.output.script_pubkey.as_slice(),
        ) {
            Ok(()) => {},
            Err(_) => return false,
        }
        match self.pop_data() {
            Ok(result) => {
                if ScriptEngine::is_false(result.as_slice()) {
                    return false;
                }
                if self.stack_len() != 0 {
                    return false;
                }
            },
            Err(_) => return false,
        }
        true
    }

    /// Checks the scripts of every input of a transaction against the outputs they spend.
    pub fn validate_transaction(&mut self, tx: &Transaction, utxo_set: &UtxoSet, current_block_height: u64) -> (r: bool)
        requires
            height_in_bounds(current_block_height),
            tx.spec_inputs().len() <= MAX_COUNTED_INPUTS,
        ensures
            (final(self)@, r) == spec_validate_from(old(self)@.with_sig_ops(0), *tx, utxo_set@, current_block_height, 0),
    {
        self.set_sig_op_count(0);
        let ghost target = spec_validate_from(self@, *tx, utxo_set@, current_block_height, 0);
        let inputs = tx.get_inputs();
        let mut input_index: usize = 0;
        while input_index < inputs.len()
            invariant
                input_index <= inputs@.len(),
                inputs@ == tx.spec_inputs(),
                inputs@.len() <= MAX_COUNTED_INPUTS,
                height_in_bounds(current_block_height),
                target == spec_validate_from(old(self)@.with_sig_ops(0), *tx, utxo_set@, current_block_height, 0),
                spec_validate_from(self@, *tx, utxo_set@, current_block_height, input_index as nat) == target,
                self@.sig_op_count <= input_index * MAX_OPCODE_COUNT,
            decreases inputs@.len() - input_index,
        {
            if tx.is_coinbase() {
                input_index = input_index + 1;
                continue ;
            }
            if !self.check_input(tx, utxo_set, input_index, current_block_height) {
                return false;
            }
            input_index = input_index + 1;
        }
        true
    }

    /// Checks one input, recognising the standard templates first; other locking scripts run
    /// after the unlocking script on this machine.
    pub fn execute_standard_script(
        &mut self,
        script_sig: &[u8],
        script_pubkey: &[u8],
        tx: &Transaction,
        input_index: usize,
    ) -> (r: Result<(), ScriptError>)
        requires
            counters_in_bounds(old(self)@),
        ensures
            (final(self)@, r) == spec_execute_standard(old(self)@, script_sig@, script_pubkey@, *tx, input_index as int),
    {
        let sig_script = Script::from_slice(script_sig);
        let pubkey_script = Script::from_slice(script_pubkey);
        if StandardScripts::is_p2pkh(&pubkey_script) {
            return verify_p2pkh_script(&sig_script, &pubkey_script, tx, input_index);
        }
        if StandardScripts::is_p2sh(&pubkey_script) {
            return verify_p2sh_script(&sig_script, &pubkey_script, tx, input_index, self);
        }
        let mut combined_script = copy_bytes(script_sig);
        extend_bytes(&mut combined_script, script_pubkey);
        self.reset_for_script();
        let tx_hash = tx.txid();
        self.execute(combined_script.as_slice(), tx_hash.as_slice(), tx, 0, input_index, script_pubkey)
    }

    /// Checks one input's scripts on a fresh machine: the unlocking script, then the
    /// locking script, must leave a single true item.
    pub fn verify_script(
        script_sig: &[u8],
        script_pubkey: &[u8],
        tx: &Transaction,
        input_index: usize,
        _utxo_output: &TxOutput,
    ) -> (r: Result<(), ScriptError>)
        ensures
            r == spec_verify_script(script_sig@, script_pubkey@, *tx, input_index as int),
    {
        if script_sig.len() > MAX_SCRIPT_BYTES {
            return Err(ScriptError::ScriptTooLarge);
        }
        if script_pubkey.len() > MAX_SCRIPT_BYTES {
            return Err(ScriptError::ScriptTooLarge);
        }
        let mut script_engine = ScriptEngine::new();
        let message: [u8; 32] = [0u8; 32];
        match script_engine.execute(script_sig, message.as_slice(), tx, 0, input_index, script_pubkey) {
            Ok(()) => {},
            Err(e) => return Err(e),
        }
        match script_engine.execute(script_pubkey, message.as_slice(), tx, 0, input_index, script_pubkey) {
            Ok(()) => {},
            Err(e) => return Err(e),
        }
        script_engine.final_check()
    }

    /// Checks one input's scripts, counting signature operations across a transaction:
    /// `transaction_sig_op_count` is where the count starts and receives where it ends.
    pub fn verify_script_with_sig_op_count(
        &mut self,
        script_sig: &[u8],
        script_pubkey: &[u8],
        tx: &Transaction,
        input_index: usize,
        _utxo_output: &TxOutput,
        transaction_sig_op_count: &mut usize,
    ) -> (r: Result<(), ScriptError>)
        requires
            *old(transaction_sig_op_count) <= usize::MAX - 1024,
            old(self)@.skip_depth <= usize::MAX - 1024,
        ensures
            (final(self)@, *final(transaction_sig_op_count), r) == spec_verify_with_count(
                old(self)@,
                script_sig@,
                script_pubkey@,
                *tx,
                input_index as int,
                *old(transaction_sig_op_count),
            ),
    {
        if script_sig.len() > MAX_SCRIPT_BYTES {
            return Err(ScriptError::ScriptTooLarge);
        }
        if script_pubkey.len() > MAX_SCRIPT_BYTES {
            return Err(ScriptError::ScriptTooLarge);
        }
        self.reset_for_script();
        self.set_sig_op_count(*transaction_sig_op_count);
        let message: [u8; 32] = [0u8; 32];
        match self.execute(script_sig, message.as_slice(), tx, 0, input_index, script_pubkey) {
            Ok(()) => {},
            Err(e) => return Err(e),
        }
        match self.execute(script_pubkey, message.as_slice(), tx, 0, input_index, script_pubkey) {
            Ok(()) => {},
            Err(e) => return Err(e),
        }
        *transaction_sig_op_count = self.get_sig_op_count();
        if *transaction_sig_op_count > MAX_SIG_OPS {
            return Err(ScriptError::TooManySigOps);
        }
        self.final_check()
    }
}

/// Checking a transaction's inputs never lowers the count of signature operations: each
/// input's scripts run on the machine with its count kept, and a run never lowers it.
pub proof fn law_validation_sig_ops_never_fall(
    m: EngineModel,
    tx: Transaction,
    utxos: Map<OutPoint, UtxoModel>,
    height: u64,
    i: nat,
)
    ensures
        spec_validate_from(m, tx, utxos, height, i).0.sig_op_count >= m.sig_op_count,
    decreases tx.spec_inputs().len() - i,
{
    if i < tx.spec_inputs().len() {
        if tx is Coinbase {
            law_validation_sig_ops_never_fall(m, tx, utxos, height, i + 1);
        } else {
            let ins = tx.spec_inputs();
            let op = ins[i as int].previous_output;
            if utxos.dom().contains(op) {
                let spk = utxos[op].output.script_pubkey;
                crate::script::engine::law_sig_ops_never_fall(m.reset(), ins[i as int].script_sig@ + spk,
                    make_ctx(tx, i as int, spk, height));
            }
            let (m2, ok) = spec_check_input(m, tx, utxos, height, i);
            assert(m2.sig_op_count >= m.sig_op_count);
            if ok {
                law_validation_sig_ops_never_fall(m2, tx, utxos, height, i + 1);
            }
        }
    }
}

} // verus!
