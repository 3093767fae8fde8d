//! The set of unspent transaction outputs, keyed by the outpoint that names each one.
use vstd::prelude::*;
use crate::assoc::AssocList;
use crate::consensus::error::ConsensusError;
use crate::encoding::spec_txid;
use crate::types::{OutPoint, Transaction, TxInput, TxOutput, TxOutputModel, Utxo, UtxoModel, Block};

verus! {

/// A set of unspent transaction outputs.
pub struct UtxoSet {
    utxos: AssocList<OutPoint, Utxo>,
}

impl View for UtxoSet {
    type V = Map<OutPoint, UtxoModel>;

    closed spec fn view(&self) -> Map<OutPoint, UtxoModel> {
        self.utxos.map().map_values(|u: Utxo| u@)
    }
}

/// Removes every outpoint the inputs spend, in order.
pub open spec fn spend_inputs(m: Map<OutPoint, UtxoModel>, ins: Seq<TxInput>) -> Map<OutPoint, UtxoModel>
    decreases ins.len(),
{
    if ins.len() == 0 {
        m
    } else {
        spend_inputs(m, ins.drop_last()).remove(ins.last().previous_output)
    }
}

/// The UTXO that output `vout` of a transaction becomes.
pub open spec fn new_utxo(o: TxOutput, is_coinbase: bool, height: u64) -> UtxoModel {
    UtxoModel { output: o@, is_coinbase, creation_height: height }
}

/// Adds the first `n` outputs of a transaction, output `i` under `(txid, i)`.
pub open spec fn add_outputs(
    m: Map<OutPoint, UtxoModel>,
    txid: [u8; 32],
    outs: Seq<TxOutput>,
    is_coinbase: bool,
    height: u64,
    n: nat,
) -> Map<OutPoint, UtxoModel>
    decreases n,
{
    if n == 0 {
        m
    } else {
        add_outputs(m, txid, outs, is_coinbase, height, (n - 1) as nat).insert(
            OutPoint { txid, vout: (n - 1) as u32 },
            new_utxo(outs[n - 1], is_coinbase, height),
        )
    }
}

/// What one transaction does to the set: its inputs are spent, then its outputs added.
pub open spec fn apply_transaction(m: Map<OutPoint, UtxoModel>, tx: Transaction, height: u64) -> Map<OutPoint, UtxoModel> {
    add_outputs(
        spend_inputs(m, tx.spec_inputs()),
        spec_txid(tx@),
        tx.spec_outputs(),
        tx is Coinbase,
        height,
        tx.spec_outputs().len(),
    )
}

/// Spends the inputs of the first `n` transactions.
pub open spec fn spend_all(m: Map<OutPoint, UtxoModel>, txs: Seq<Transaction>, n: nat) -> Map<OutPoint, UtxoModel>
    decreases n,
{
    if n == 0 {
        m
    } else {
        spend_inputs(spend_all(m, txs, (n - 1) as nat), txs[n - 1].spec_inputs())
    }
}

/// Adds the outputs of the first `n` transactions.
pub open spec fn add_all(m: Map<OutPoint, UtxoModel>, txs: Seq<Transaction>, height: u64, n: nat) -> Map<OutPoint, UtxoModel>
    decreases n,
{
    if n == 0 {
        m
    } else {
        let tx = txs[n - 1];
        add_outputs(
            add_all(m, txs, height, (n - 1) as nat),
            spec_txid(tx@),
            tx.spec_outputs(),
            tx is Coinbase,
            height,
            tx.spec_outputs().len(),
        )
    }
}

/// What a block does to the set: every input of every transaction is spent first, then
/// every output is added, created at `height`.
pub open spec fn apply_block_spec(m: Map<OutPoint, UtxoModel>, block: Block, height: u64) -> Map<OutPoint, UtxoModel> {
    let txs = block.transactions@;
    add_all(spend_all(m, txs, txs.len()), txs, height, txs.len())
}

/// The UTXO put back for a spent outpoint when a block is undone: the one the set holds,
/// or an empty, zero-valued output when it holds none.
pub open spec fn historical_utxo(m: Map<OutPoint, UtxoModel>, op: OutPoint) -> UtxoModel {
    if m.dom().contains(op) {
        m[op]
    } else {
        UtxoModel {
            output: TxOutputModel { value: 0, script_pubkey: Seq::empty(), memo: None },
            is_coinbase: false,
            creation_height: 0,
        }
    }
}

/// Removes outputs `n - 1` down to `0` of a transaction.
pub open spec fn remove_outputs(m: Map<OutPoint, UtxoModel>, txid: [u8; 32], n: nat) -> Map<OutPoint, UtxoModel>
    decreases n,
{
    if n == 0 {
        m
    } else {
        remove_outputs(m.remove(OutPoint { txid, vout: (n - 1) as u32 }), txid, (n - 1) as nat)
    }
}

/// Puts back the outpoints of inputs `k - 1` down to `0`.
pub open spec fn restore_inputs(m: Map<OutPoint, UtxoModel>, ins: Seq<TxInput>, k: nat) -> Map<OutPoint, UtxoModel>
    decreases k,
{
    if k == 0 {
        m
    } else {
        let op = ins[k - 1].previous_output;
        restore_inputs(m.insert(op, historical_utxo(m, op)), ins, (k - 1) as nat)
    }
}

/// Undoes transactions `k - 1` down to `0`: each one's outputs removed, last first, then
/// its inputs put back, last first.
pub open spec fn revert_txs(m: Map<OutPoint, UtxoModel>, txs: Seq<Transaction>, k: nat) -> Map<OutPoint, UtxoModel>
    decreases k,
{
    if k == 0 {
        m
    } else {
        let tx = txs[k - 1];
        let m1 = remove_outputs(m, spec_txid(tx@), tx.spec_outputs().len());
        let m2 = restore_inputs(m1, tx.spec_inputs(), tx.spec_inputs().len());
        revert_txs(m2, txs, (k - 1) as nat)
    }
}

/// Whether input `i` spends an outpoint an earlier input of the same list spends.
pub open spec fn spent_earlier(ins: Seq<TxInput>, i: int) -> bool {
    exists|j: int| 0 <= j < i && ins[j].previous_output == ins[i].previous_output
}

/// Scans the first `n` inputs: the total value they spend, or `None` once one spends an
/// outpoint spent earlier in the list or missing from the set.
pub open spec fn scan_inputs(m: Map<OutPoint, UtxoModel>, ins: Seq<TxInput>, n: nat) -> Option<nat>
    decreases n,
{
    if n == 0 {
        Some(0)
    } else {
        match scan_inputs(m, ins, (n - 1) as nat) {
            None => None,
            Some(t) => {
                let op = ins[n - 1].previous_output;
                if spent_earlier(ins, n - 1) || !m.dom().contains(op) {
                    None
                } else {
                    Some(t + m[op].output.value as nat)
                }
            },
        }
    }
}

/// The total value of the first `n` outputs.
pub open spec fn sum_outputs(outs: Seq<TxOutput>, n: nat) -> nat
    decreases n,
{
    if n == 0 {
        0
    } else {
        sum_outputs(outs, (n - 1) as nat) + outs[n - 1].value as nat
    }
}

/// The running input total of the scan never exceeds `u64::MAX`, nor, when every input
/// is found, the total of the outputs and the fee.
pub open spec fn input_totals_fit(m: Map<OutPoint, UtxoModel>, tx: Transaction) -> bool {
    let ins = tx.spec_inputs();
    let outs = tx.spec_outputs();
    &&& forall|i: nat| i <= ins.len() ==> (#[trigger] scan_inputs(m, ins, i) matches Some(t) ==> t <= u64::MAX)
    &&& scan_inputs(m, ins, ins.len()) is Some ==> sum_outputs(outs, outs.len()) + tx.spec_fee() <= u64::MAX
}

/// Whether the inputs are all found in the set, none spent twice, and together cover the
/// outputs plus the declared fee.
pub open spec fn inputs_valid(m: Map<OutPoint, UtxoModel>, tx: Transaction) -> bool {
    let ins = tx.spec_inputs();
    let outs = tx.spec_outputs();
    scan_inputs(m, ins, ins.len()) matches Some(t) && t >= sum_outputs(outs, outs.len()) + tx.spec_fee()
}

pub proof fn lemma_scan_monotone(m: Map<OutPoint, UtxoModel>, ins: Seq<TxInput>, i: nat, j: nat)
    requires
        i <= j,
        scan_inputs(m, ins, j) is Some,
    ensures
        scan_inputs(m, ins, i) is Some,
        scan_inputs(m, ins, i)->Some_0 <= scan_inputs(m, ins, j)->Some_0,
    decreases j - i,
{
    if i < j {
        lemma_scan_monotone(m, ins, i, (j - 1) as nat);
    }
}

pub proof fn lemma_scan_none_persists(m: Map<OutPoint, UtxoModel>, ins: Seq<TxInput>, i: nat, j: nat)
    requires
        i <= j,
        scan_inputs(m, ins, i) is None,
    ensures
        scan_inputs(m, ins, j) is None,
    decreases j - i,
{
    if i < j {
        lemma_scan_none_persists(m, ins, i + 1, j);
    }
}

impl UtxoSet {
    /// Creates a new, empty UTXO set.
    pub fn new() -> (r: UtxoSet)
        ensures
            r@ == Map::<OutPoint, UtxoModel>::empty(),
    {
        let r = UtxoSet { utxos: AssocList::new() };
        assert(r@ =~= Map::<OutPoint, UtxoModel>::empty());
        r
    }

    /// Adds a UTXO to the set, replacing any under the same outpoint.
    pub fn add_utxo(&mut self, outpoint: OutPoint, utxo: Utxo)
        ensures
            final(self)@ == old(self)@.insert(outpoint, utxo@),
    {
        self.utxos.insert(outpoint, utxo);
        assert(self@ =~= old(self)@.insert(outpoint, utxo@));
    }

    /// Removes a UTXO from the set, returning it.
    pub fn remove_utxo(&mut self, outpoint: &OutPoint) -> (r: Option<Utxo>)
        ensures
            final(self)@ == old(self)@.remove(*outpoint),
            r matches Some(u) ==> old(self)@.dom().contains(*outpoint) && u@ == old(self)@[*outpoint],
            r is None ==> !old(self)@.dom().contains(*outpoint),
    {
        let r = self.utxos.remove(outpoint);
        assert(self@ =~= old(self)@.remove(*outpoint));
        r
    }

    /// Retrieves a UTXO from the set.
    pub fn get_utxo(&self, outpoint: &OutPoint) -> (r: Option<&Utxo>)
        ensures
            r matches Some(u) ==> self@.dom().contains(*outpoint) && u@ == self@[*outpoint],
            r is None ==> !self@.dom().contains(*outpoint),
    {
        self.utxos.get(outpoint)
    }

    /// Checks if a UTXO is in the set.
    pub fn contains_utxo(&self, outpoint: &OutPoint) -> (r: bool)
        ensures
            r == self@.dom().contains(*outpoint),
    {
        self.utxos.contains_key(outpoint)
    }

    /// Returns the number of UTXOs in the set.
    pub fn len(&self) -> (r: usize)
        ensures
            r == self@.dom().len(),
    {
        let r = self.utxos.len();
        assert(self@.dom() =~= self.utxos.map().dom());
        r
    }

    /// Checks if the set is empty.
    pub fn is_empty(&self) -> (r: bool)
        ensures
            r == (self@.dom().len() == 0),
    {
        self.len() == 0
    }

    /// The outpoints and UTXOs of the set, each once.
    pub fn iter(&self) -> (r: Vec<(OutPoint, Utxo)>)
        ensures
            r@.len() == self@.dom().len(),
            forall|i: int|
                0 <= i < r@.len() ==> self@.dom().contains(#[trigger] r@[i].0) && r@[i].1@ == self@[r@[i].0],
            forall|op: OutPoint| self@.dom().contains(op) ==> exists|i: int| 0 <= i < r@.len() && #[trigger] r@[i].0 == op,
    {
        self.utxos.lemma_wf();
        let entries = self.utxos.entries();
        let mut r: Vec<(OutPoint, Utxo)> = Vec::new();
        let mut i: usize = 0;
        while i < entries.len()
            invariant
                i <= entries@.len(),
                entries@ == self.utxos.seq(),
                r@.len() == i,
                forall|j: int| #![trigger r@[j]] 0 <= j < i ==> r@[j].0 == entries@[j].0 && r@[j].1@ == entries@[j].1@,
            decreases entries@.len() - i,
        {
            r.push((entries[i].0, entries[i].1.deep_copy()));
            i = i + 1;
        }
        self.utxos.lemma_wf();
        proof {
            assert(self@.dom() =~= self.utxos.map().dom());
            assert forall|op: OutPoint| self@.dom().contains(op) implies exists|i: int| 0 <= i < r@.len() && #[trigger] r@[i].0 == op by {
                let j = choose|j: int| 0 <= j < entries@.len() && entries@[j].0 == op;
                assert(r@[j].0 == op);
            }
            assert forall|i: int| 0 <= i < r@.len() implies self@.dom().contains(#[trigger] r@[i].0) && r@[i].1@ == self@[r@[i].0] by {
                assert(self.utxos.map().dom().contains(entries@[i].0));
            }
        }
        r
    }

    fn spend_inputs_of(&mut self, ins: &Vec<TxInput>)
        ensures
            final(self)@ == spend_inputs(old(self)@, ins@),
    {
        let mut i: usize = 0;
        while i < ins.len()
            invariant
                i <= ins@.len(),
                self@ == spend_inputs(old(self)@, ins@.take(i as int)),
            decreases ins@.len() - i,
        {
            self.remove_utxo(&ins[i].previous_output);
            i = i + 1;
            assert(ins@.take(i as int).drop_last() =~= ins@.take(i - 1));
        }
        assert(ins@.take(ins@.len() as int) =~= ins@);
    }

    fn add_outputs_of(&mut self, txid: [u8; 32], outs: &Vec<TxOutput>, is_coinbase: bool, height: u64)
        ensures
            final(self)@ == add_outputs(old(self)@, txid, outs@, is_coinbase, height, outs@.len()),
    {
        let mut i: usize = 0;
        while i < outs.len()
            invariant
                i <= outs@.len(),
                self@ == add_outputs(old(self)@, txid, outs@, is_coinbase, height, i as nat),
            decreases outs@.len() - i,
        {
            self.add_utxo(
                OutPoint { txid, vout: i as u32 },
                Utxo { output: outs[i].deep_copy(), is_coinbase, creation_height: height },
            );
            i = i + 1;
        }
    }

    /// Updates the UTXO set from a block: every input of every transaction is spent first,
    /// then every output added, created at `current_block_height`.
    pub fn update_from_block(&mut self, block: &Block, current_block_height: u64)
        ensures
            final(self)@ == apply_block_spec(old(self)@, *block, current_block_height),
    {
        self.spend_all_of(&block.transactions);
        self.add_all_of(&block.transactions, current_block_height);
    }

    fn spend_all_of(&mut self, txs: &Vec<Transaction>)
        ensures
            final(self)@ == spend_all(old(self)@, txs@, txs@.len()),
    {
        let mut i: usize = 0;
        while i < txs.len()
            invariant
                i <= txs@.len(),
                self@ == spend_all(old(self)@, txs@, i as nat),
            decreases txs@.len() - i,
        {
            self.spend_inputs_of(txs[i].get_inputs());
            i = i + 1;
        }
    }

    fn add_all_of(&mut self, txs: &Vec<Transaction>, current_block_height: u64)
        ensures
            final(self)@ == add_all(old(self)@, txs@, current_block_height, txs@.len()),
    {
        let mut i: usize = 0;
        while i < txs.len()
            invariant
                i <= txs@.len(),
                self@ == add_all(old(self)@, txs@, current_block_height, i as nat),
            decreases txs@.len() - i,
        {
            let tx = &txs[i];
            let is_coinbase = tx.is_coinbase();
            let txid = tx.txid();
            self.add_outputs_of(txid, tx.get_outputs(), is_coinbase, current_block_height);
            i = i + 1;
        }
    }

    /// Updates the UTXO set from one transaction: its inputs spent, then its outputs added.
    pub fn update_from_transaction(&mut self, tx: &Transaction, current_block_height: u64)
        ensures
            final(self)@ == apply_transaction(old(self)@, *tx, current_block_height),
    {
        self.spend_inputs_of(tx.get_inputs());
        let is_coinbase = tx.is_coinbase();
        let txid = tx.txid();
        self.add_outputs_of(txid, tx.get_outputs(), is_coinbase, current_block_height);
    }

    /// Applies a block to the UTXO set.
    pub fn apply_block(&mut self, block: &Block, current_block_height: u64)
        ensures
            final(self)@ == apply_block_spec(old(self)@, *block, current_block_height),
    {
        self.update_from_block(block, current_block_height);
    }

    /// The UTXO to put back for a spent outpoint: the one the set holds, or an empty,
    /// zero-valued output.
    fn get_historical_utxo(&self, outpoint: &OutPoint) -> (r: Option<Utxo>)
        ensures
            r matches Some(u) && u@ == historical_utxo(self@, *outpoint),
    {
        match self.get_utxo(outpoint) {
            Some(utxo) => Some(utxo.deep_copy()),
            None => {
                let u = Utxo {
                    output: TxOutput { value: 0, script_pubkey: Vec::new(), memo: None },
                    is_coinbase: false,
                    creation_height: 0,
                };
                assert(u@.output.script_pubkey =~= Seq::<u8>::empty());
                Some(u)
            },
        }
    }

    /// Reverts a block: transactions last first, each one's outputs removed and its spent
    /// outpoints put back.
    pub fn revert_block(&mut self, block: &Block) -> (r: Result<(), ConsensusError>)
        ensures
            r is Ok,
            final(self)@ == revert_txs(old(self)@, block.transactions@, block.transactions@.len()),
    {
        let txs = &block.transactions;
        let mut k: usize = txs.len();
        while k > 0
            invariant
                k <= txs@.len(),
                txs@ == block.transactions@,
                revert_txs(old(self)@, txs@, txs@.len()) == revert_txs(self@, txs@, k as nat),
            decreases k,
        {
            let tx = &txs[k - 1];
            let txid = tx.txid();
            let outputs = tx.get_outputs();
            let mut i: usize = outputs.len();
            let ghost m_start = self@;
            while i > 0
                invariant
                    i <= outputs@.len(),
                    remove_outputs(m_start, txid, outputs@.len()) == remove_outputs(self@, txid, i as nat),
                decreases i,
            {
                self.remove_utxo(&OutPoint { txid, vout: (i - 1) as u32 });
                i = i - 1;
            }
            let inputs = tx.get_inputs();
            let mut j: usize = inputs.len();
            let ghost m_mid = self@;
            while j > 0
                invariant
                    j <= inputs@.len(),
                    restore_inputs(m_mid, inputs@, inputs@.len()) == restore_inputs(self@, inputs@, j as nat),
                decreases j,
            {
                let op = inputs[j - 1].previous_output;
                match self.get_historical_utxo(&op) {
                    Some(original_utxo) => {
                        self.add_utxo(op, original_utxo);
                    },
                    None => {
                        return Err(ConsensusError::FailedToFindHistoricalUTXO(op));
                    },
                }
                j = j - 1;
            }
            k = k - 1;
        }
        Ok(())
    }

    /// Whether the transaction's inputs are all in the set, none spent twice within it,
    /// and together cover its outputs plus its declared fee.
    pub fn validate_transaction_inputs(&self, tx: &Transaction) -> (r: bool)
        requires
            input_totals_fit(self@, *tx),
        ensures
            r == inputs_valid(self@, *tx),
    {
        let ins = tx.get_inputs();
        let ghost m = self@;
        let mut total_input_value: u64 = 0;
        let mut spent: Vec<OutPoint> = Vec::new();
        let mut i: usize = 0;
        while i < ins.len()
            invariant
                i <= ins@.len(),
                ins@ == tx.spec_inputs(),
                m == self@,
                input_totals_fit(m, *tx),
                scan_inputs(m, ins@, i as nat) == Some(total_input_value as nat),
                spent@.len() == i,
                forall|j: int| 0 <= j < i ==> #[trigger] spent@[j] == ins@[j].previous_output,
            decreases ins@.len() - i,
        {
            let op = ins[i].previous_output;
            let mut seen = false;
            let mut j: usize = 0;
            while j < spent.len()
                invariant
                    j <= spent@.len(),
                    spent@.len() == i,
                    seen == (exists|q: int| 0 <= q < j && spent@[q] == op),
                decreases spent@.len() - j,
            {
                if crate::types::outpoint_eq(&spent[j], &op) {
                    seen = true;
                }
                j = j + 1;
            }
            if seen {
                proof {
                    let q = choose|q: int| 0 <= q < i && spent@[q] == op;
                    assert(ins@[q].previous_output == ins@[i as int].previous_output);
                    assert(spent_earlier(ins@, i as int));
                    assert(scan_inputs(m, ins@, (i + 1) as nat) is None);
                    lemma_scan_none_persists(m, ins@, (i + 1) as nat, ins@.len());
                }
                return false;
            }
            proof {
                assert(!spent_earlier(ins@, i as int)) by {
                    if spent_earlier(ins@, i as int) {
                        let q = choose|q: int| 0 <= q < i && ins@[q].previous_output == ins@[i as int].previous_output;
                        assert(spent@[q] == op);
                    }
                }
            }
            spent.push(op);
            match self.get_utxo(&op) {
                Some(utxo) => {
                    proof {
                        assert(scan_inputs(m, ins@, (i + 1) as nat) == Some((total_input_value + utxo.output.value) as nat));
                        assert(scan_inputs(m, ins@, (i + 1) as nat)->Some_0 <= u64::MAX);
                    }
                    total_input_value = total_input_value + utxo.output.value;
                },
                None => {
                    proof {
                        assert(scan_inputs(m, ins@, (i + 1) as nat) is None);
                        lemma_scan_none_persists(m, ins@, (i + 1) as nat, ins@.len());
                    }
                    return false;
                },
            }
            i = i + 1;
        }
        let outs = tx.get_outputs();
        let mut total_output_value: u64 = 0;
        let mut k: usize = 0;
        while k < outs.len()
            invariant
                k <= outs@.len(),
                outs@ == tx.spec_outputs(),
                total_output_value == sum_outputs(outs@, k as nat),
                sum_outputs(outs@, outs@.len()) + tx.spec_fee() <= u64::MAX,
            decreases outs@.len() - k,
        {
            proof {
                lemma_sum_outputs_monotone(outs@, (k + 1) as nat, outs@.len());
            }
            total_output_value = total_output_value + outs[k].value;
            k = k + 1;
        }
        total_input_value >= total_output_value + tx.get_fee()
    }

    /// The txids of the non-coinbase UTXOs, one per such UTXO, read as ticket ids.
    pub fn get_used_inputs_as_ticket_ids(&self) -> (r: Vec<[u8; 32]>)
        ensures
            r@.to_set() == self@.dom().filter(|op: OutPoint| !self@[op].is_coinbase).map(
                |op: OutPoint| op.txid,
            ),
            r@.len() == self@.dom().filter(|op: OutPoint| !self@[op].is_coinbase).len(),
    {
        self.utxos.lemma_wf();
        let entries = self.utxos.entries();
        let ghost s = self.utxos.seq();
        let ghost mut kt: Seq<OutPoint> = Seq::empty();
        let ghost mut pos: Seq<int> = Seq::empty();
        let mut r: Vec<[u8; 32]> = Vec::new();
        let mut i: usize = 0;
        while i < entries.len()
            invariant
                i <= entries@.len(),
                entries@ == s,
                crate::assoc::distinct_keys(s),
                r@.len() == kt.len(),
                pos.len() == kt.len(),
                forall|q: int| 0 <= q < kt.len() ==> #[trigger] r@[q] == kt[q].txid,
                forall|q: int|
                    0 <= q < kt.len() ==> 0 <= #[trigger] pos[q] < i && s[pos[q]].0 == kt[q] && !s[pos[q]].1.is_coinbase,
                forall|j: int| 0 <= j < i && !(#[trigger] s[j]).1.is_coinbase ==> kt.contains(s[j].0),
                kt.no_duplicates(),
            decreases entries@.len() - i,
        {
            if !entries[i].1.is_coinbase {
                r.push(entries[i].0.txid);
                proof {
                    assert(!kt.contains(s[i as int].0)) by {
                        if kt.contains(s[i as int].0) {
                            let q = choose|q: int| 0 <= q < kt.len() && kt[q] == s[i as int].0;
                            assert(pos[q] < i);
                            assert(s[pos[q]].0 != s[i as int].0);
                        }
                    }
                    let kt2 = kt.push(s[i as int].0);
                    assert forall|j: int| 0 <= j < i + 1 && !(#[trigger] s[j]).1.is_coinbase implies kt2.contains(s[j].0) by {
                        if j < i {
                            assert(kt.contains(s[j].0));
                            let q = choose|q: int| 0 <= q < kt.len() && kt[q] == s[j].0;
                            assert(kt2[q] == s[j].0);
                        } else {
                            assert(kt2[kt.len() as int] == s[j].0);
                        }
                    }
                    kt = kt2;
                    pos = pos.push(i as int);
                }
            }
            i = i + 1;
        }
        proof {
            let f = self@.dom().filter(|op: OutPoint| !self@[op].is_coinbase);
            assert(kt.to_set() =~= f) by {
                assert forall|op: OutPoint| kt.to_set().contains(op) implies f.contains(op) by {
                    let q = choose|q: int| 0 <= q < kt.len() && kt[q] == op;
                    let j = pos[q];
                    crate::assoc::lemma_entries_map_at(s, j);
                }
                assert forall|op: OutPoint| f.contains(op) implies kt.to_set().contains(op) by {
                    let j = choose|j: int| 0 <= j < s.len() && s[j].0 == op;
                    crate::assoc::lemma_entries_map_at(s, j);
                    assert(!s[j].1.is_coinbase);
                    assert(kt.contains(s[j].0));
                }
            }
            kt.unique_seq_to_set();
            let g = |op: OutPoint| op.txid;
            assert(r@.to_set() =~= f.map(g)) by {
                assert forall|x: [u8; 32]| r@.to_set().contains(x) implies f.map(g).contains(x) by {
                    let q = choose|q: int| 0 <= q < r@.len() && r@[q] == x;
                    assert(kt.to_set().contains(kt[q]));
                    assert(f.contains(kt[q]) && g(kt[q]) == x);
                }
                assert forall|x: [u8; 32]| f.map(g).contains(x) implies r@.to_set().contains(x) by {
                    let op = choose|op: OutPoint| f.contains(op) && g(op) == x;
                    assert(kt.to_set().contains(op));
                    let q = choose|q: int| 0 <= q < kt.len() && kt[q] == op;
                    assert(r@[q] == x);
                }
            }
        }
        r
    }
}

pub proof fn lemma_sum_outputs_monotone(outs: Seq<TxOutput>, i: nat, j: nat)
    requires
        i <= j,
    ensures
        sum_outputs(outs, i) <= sum_outputs(outs, j),
    decreases j - i,
{
    if i < j {
        lemma_sum_outputs_monotone(outs, i, (j - 1) as nat);
    }
}

/// A UTXO added under an outpoint the set did not hold is read back as it was added,
/// and removing it gives back the set there was.
pub proof fn law_utxo_remove_undoes_add(m: Map<OutPoint, UtxoModel>, op: OutPoint, u: UtxoModel)
    requires
        !m.dom().contains(op),
    ensures
        m.insert(op, u).dom().contains(op),
        m.insert(op, u)[op] == u,
        m.insert(op, u).remove(op) == m,
{
    assert(m.insert(op, u).remove(op) =~= m);
}

/// The outpoints of the first `n` outputs of the transaction `txid`.
pub open spec fn output_points(txid: [u8; 32], n: nat) -> Set<OutPoint> {
    Set::new(|op: OutPoint| op.txid == txid && op.vout < n)
}

/// The outpoints the first `n` transactions of a block create.
pub open spec fn created_points(txs: Seq<Transaction>, n: nat) -> Set<OutPoint> {
    Set::new(|op: OutPoint| exists|k: int| 0 <= k < n && #[trigger] output_points(spec_txid(txs[k]@), txs[k].spec_outputs().len()).contains(op))
}

proof fn lemma_remove_outputs(m: Map<OutPoint, UtxoModel>, txid: [u8; 32], c: nat)
    requires
        c <= u32::MAX + 1,
    ensures
        remove_outputs(m, txid, c) == m.remove_keys(output_points(txid, c)),
    decreases c,
{
    if c > 0 {
        let op = OutPoint { txid, vout: (c - 1) as u32 };
        lemma_remove_outputs(m.remove(op), txid, (c - 1) as nat);
        assert(m.remove(op).remove_keys(output_points(txid, (c - 1) as nat)) =~= m.remove_keys(output_points(txid, c)));
    } else {
        assert(m.remove_keys(output_points(txid, 0)) =~= m);
    }
}

proof fn lemma_add_outputs_removed(m: Map<OutPoint, UtxoModel>, txid: [u8; 32], outs: Seq<TxOutput>, cb: bool, h: u64, c: nat, p: Set<OutPoint>)
    requires
        c <= u32::MAX + 1,
        output_points(txid, c).subset_of(p),
    ensures
        add_outputs(m, txid, outs, cb, h, c).remove_keys(p) == m.remove_keys(p),
    decreases c,
{
    if c > 0 {
        let op = OutPoint { txid, vout: (c - 1) as u32 };
        assert(output_points(txid, (c - 1) as nat).subset_of(p)) by {
            assert forall|x: OutPoint| output_points(txid, (c - 1) as nat).contains(x) implies p.contains(x) by {
                assert(output_points(txid, c).contains(x));
            }
        }
        lemma_add_outputs_removed(m, txid, outs, cb, h, (c - 1) as nat, p);
        assert(output_points(txid, c).contains(op));
        let prev = add_outputs(m, txid, outs, cb, h, (c - 1) as nat);
        assert(prev.insert(op, new_utxo(outs[c - 1], cb, h)).remove_keys(p) =~= prev.remove_keys(p));
    }
}

proof fn lemma_revert_without_inputs(m: Map<OutPoint, UtxoModel>, txs: Seq<Transaction>, n: nat)
    requires
        n <= txs.len(),
        forall|k: int| 0 <= k < n ==> (#[trigger] txs[k]).spec_inputs().len() == 0 && txs[k].spec_outputs().len() <= u32::MAX,
    ensures
        revert_txs(m, txs, n) == m.remove_keys(created_points(txs, n)),
    decreases n,
{
    if n == 0 {
        assert(m.remove_keys(created_points(txs, 0)) =~= m);
    } else {
        let tx = txs[n - 1];
        let m1 = remove_outputs(m, spec_txid(tx@), tx.spec_outputs().len());
        lemma_remove_outputs(m, spec_txid(tx@), tx.spec_outputs().len());
        assert(restore_inputs(m1, tx.spec_inputs(), 0) == m1);
        lemma_revert_without_inputs(m1, txs, (n - 1) as nat);
        assert forall|op: OutPoint| created_points(txs, n).contains(op) <==> (output_points(spec_txid(tx@), tx.spec_outputs().len()).contains(op)
            || created_points(txs, (n - 1) as nat).contains(op)) by {
            if created_points(txs, n).contains(op) {
                let k = choose|k: int| 0 <= k < n && #[trigger] output_points(spec_txid(txs[k]@), txs[k].spec_outputs().len()).contains(op);
                if k < n - 1 {
                    assert(created_points(txs, (n - 1) as nat).contains(op));
                }
            }
            if created_points(txs, (n - 1) as nat).contains(op) {
                let k = choose|k: int| 0 <= k < n - 1 && #[trigger] output_points(spec_txid(txs[k]@), txs[k].spec_outputs().len()).contains(op);
                assert(output_points(spec_txid(txs[k]@), txs[k].spec_outputs().len()).contains(op));
            }
            if output_points(spec_txid(tx@), tx.spec_outputs().len()).contains(op) {
                assert(output_points(spec_txid(txs[n - 1]@), txs[n - 1].spec_outputs().len()).contains(op));
            }
        }
        assert(m.remove_keys(output_points(spec_txid(tx@), tx.spec_outputs().len())).remove_keys(created_points(txs, (n - 1) as nat))
            =~= m.remove_keys(created_points(txs, n)));
    }
}

proof fn lemma_add_all_removed(m: Map<OutPoint, UtxoModel>, txs: Seq<Transaction>, h: u64, n: nat, p: Set<OutPoint>)
    requires
        n <= txs.len(),
        forall|k: int| 0 <= k < n ==> (#[trigger] txs[k]).spec_outputs().len() <= u32::MAX,
        created_points(txs, n).subset_of(p),
    ensures
        add_all(m, txs, h, n).remove_keys(p) == m.remove_keys(p),
    decreases n,
{
    if n > 0 {
        let tx = txs[n - 1];
        assert(created_points(txs, (n - 1) as nat).subset_of(p)) by {
            assert forall|op: OutPoint| created_points(txs, (n - 1) as nat).contains(op) implies p.contains(op) by {
                let k = choose|k: int| 0 <= k < n - 1 && #[trigger] output_points(spec_txid(txs[k]@), txs[k].spec_outputs().len()).contains(op);
                assert(created_points(txs, n).contains(op));
            }
        }
        assert(output_points(spec_txid(tx@), tx.spec_outputs().len()).subset_of(p)) by {
            assert forall|op: OutPoint| output_points(spec_txid(tx@), tx.spec_outputs().len()).contains(op) implies p.contains(op) by {
                assert(output_points(spec_txid(txs[n - 1]@), txs[n - 1].spec_outputs().len()).contains(op));
                assert(created_points(txs, n).contains(op));
            }
        }
        lemma_add_all_removed(m, txs, h, (n - 1) as nat, p);
        lemma_add_outputs_removed(add_all(m, txs, h, (n - 1) as nat), spec_txid(tx@), tx.spec_outputs(), tx is Coinbase, h, tx.spec_outputs().len(), p);
    }
}

proof fn lemma_spend_all_without_inputs(m: Map<OutPoint, UtxoModel>, txs: Seq<Transaction>, n: nat)
    requires
        n <= txs.len(),
        forall|k: int| 0 <= k < n ==> (#[trigger] txs[k]).spec_inputs().len() == 0,
    ensures
        spend_all(m, txs, n) == m,
    decreases n,
{
    if n > 0 {
        lemma_spend_all_without_inputs(m, txs, (n - 1) as nat);
        assert(txs[n - 1].spec_inputs().len() == 0);
    }
}

/// Reverting a block undoes applying it when the block spends nothing and creates only
/// outputs the set did not hold: the set is as it was. (A block that spends an output
/// does not get it back: reverting puts a zero-valued output in its place.)
pub proof fn law_revert_undoes_apply(m: Map<OutPoint, UtxoModel>, block: Block, height: u64)
    requires
        forall|k: int| 0 <= k < block.transactions@.len() ==> (#[trigger] block.transactions@[k]).spec_inputs().len() == 0
            && block.transactions@[k].spec_outputs().len() <= u32::MAX,
        forall|op: OutPoint| created_points(block.transactions@, block.transactions@.len()).contains(op) ==> !m.dom().contains(op),
    ensures
        revert_txs(apply_block_spec(m, block, height), block.transactions@, block.transactions@.len()) == m,
{
    let txs = block.transactions@;
    let n = txs.len();
    let p = created_points(txs, n);
    lemma_spend_all_without_inputs(m, txs, n);
    lemma_add_all_removed(m, txs, height, n, p);
    lemma_revert_without_inputs(add_all(m, txs, height, n), txs, n);
    assert(m.remove_keys(p) =~= m);
}

} // verus!
