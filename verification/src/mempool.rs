//! The memory pool: unconfirmed transactions keyed by their txid, the orders in which they
//! are offered for a block, and the checks a transaction passes before it is admitted.
use vstd::prelude::*;
use crate::assoc::AssocList;
use crate::bytes::{hash_lt, lemma_seq_lt_asymmetric, lemma_seq_lt_total, lemma_seq_lt_transitive, seq_lt};
use crate::consensus::error::{message, ConsensusError};
use crate::consensus::utxo_set::UtxoSet;
use crate::encoding::{enc_transaction, spec_txid};
use crate::script::engine::{height_in_bounds, EngineModel, ScriptEngine};
use crate::script::validation::{spec_execute_standard, spec_validate_from, MAX_COUNTED_INPUTS};
use crate::types::{OutPoint, Transaction, TransactionModel, TxInput, TxOutput, TxOutputModel, UtxoModel};

verus! {

/// The node's pool of unconfirmed transactions.
pub struct Mempool {
    transactions: AssocList<[u8; 32], Transaction>,
}

impl View for Mempool {
    type V = Map<[u8; 32], TransactionModel>;

    closed spec fn view(&self) -> Map<[u8; 32], TransactionModel> {
        self.transactions.map().map_values(|t: Transaction| t@)
    }
}

/// The number of bytes of a transaction's encoding.
pub open spec fn tx_size(t: TransactionModel) -> nat {
    enc_transaction(t).len()
}

/// The orders in which the pool offers its transactions.
pub enum PoolOrder {
    /// Highest fee per byte first (exact ratio), ties broken by the smaller txid.
    FeePerByte,
    /// Highest fee per thousand bytes first (rounded down), ties broken by the smaller txid.
    FeeRateMilli,
}

/// The fee per thousand bytes, rounded down, as the block template ranks it.
pub open spec fn fee_rate_milli(t: TransactionModel) -> int {
    if tx_size(t) > 0 {
        (t.fee() * 1000) as int / tx_size(t) as int
    } else {
        0
    }
}

/// Whether `a` comes strictly before `b` in the order.
pub open spec fn pool_before(kind: PoolOrder, a: TransactionModel, b: TransactionModel) -> bool {
    let ta = spec_txid(a)@;
    let tb = spec_txid(b)@;
    match kind {
        PoolOrder::FeePerByte => {
            let x = a.fee() * tx_size(b);
            let y = b.fee() * tx_size(a);
            x > y || (x == y && seq_lt(ta, tb))
        },
        PoolOrder::FeeRateMilli => {
            let x = fee_rate_milli(a);
            let y = fee_rate_milli(b);
            x > y || (x == y && seq_lt(ta, tb))
        },
    }
}

/// Whether `s` lists every transaction of the pool once, in the given order.
pub open spec fn sorted_pool(pool: Map<[u8; 32], TransactionModel>, kind: PoolOrder, s: Seq<TransactionModel>) -> bool {
    &&& s.len() == pool.dom().len()
    &&& forall|i: int| 0 <= i < s.len() ==> pool.dom().contains(spec_txid(#[trigger] s[i])) && pool[spec_txid(s[i])] == s[i]
    &&& forall|i: int, j: int| 0 <= i < j < s.len() ==> pool_before(kind, #[trigger] s[i], #[trigger] s[j])
}

/// The views of a list of transactions.
pub open spec fn txs_view(v: Seq<Transaction>) -> Seq<TransactionModel> {
    v.map_values(|t: Transaction| t@)
}

/// Whether every transaction of the pool declares a fee whose thousandfold fits a `u64`.
pub open spec fn fees_scale(pool: Map<[u8; 32], TransactionModel>) -> bool {
    forall|k: [u8; 32]| #[trigger] pool.dom().contains(k) ==> pool[k].fee() * 1000 <= u64::MAX
}

/// How many transactions from the start of `s` a block of at most `max` bytes takes, the
/// first that does not fit ending the selection; `acc` bytes are taken already.
pub open spec fn fit_count(s: Seq<TransactionModel>, max: nat, i: nat, acc: nat) -> nat
    decreases s.len() - i,
{
    if i >= s.len() {
        i
    } else if acc + tx_size(s[i as int]) <= max {
        fit_count(s, max, i + 1, acc + tx_size(s[i as int]))
    } else {
        i
    }
}

pub proof fn lemma_enc_transaction_nonempty(t: TransactionModel)
    ensures
        tx_size(t) >= 4,
{
    reveal(enc_transaction);
}

/// Both orders are transitive.
pub proof fn lemma_pool_before_transitive(kind: PoolOrder, a: TransactionModel, b: TransactionModel, c: TransactionModel)
    requires
        pool_before(kind, a, b),
        pool_before(kind, b, c),
    ensures
        pool_before(kind, a, c),
{
    lemma_enc_transaction_nonempty(a);
    lemma_enc_transaction_nonempty(b);
    lemma_enc_transaction_nonempty(c);
    let (ta, tb, tc) = (spec_txid(a)@, spec_txid(b)@, spec_txid(c)@);
    match kind {
        PoolOrder::FeePerByte => {
            let (fa, fb, fc) = (a.fee() as int, b.fee() as int, c.fee() as int);
            let (sa, sb, sc) = (tx_size(a) as int, tx_size(b) as int, tx_size(c) as int);
            assert(fa * sb >= fb * sa && fb * sc >= fc * sb ==> fa * sc >= fc * sa) by (nonlinear_arith)
                requires sa > 0, sb > 0, sc > 0, fa >= 0, fb >= 0, fc >= 0;
            assert(fa * sb > fb * sa && fb * sc >= fc * sb ==> fa * sc > fc * sa) by (nonlinear_arith)
                requires sa > 0, sb > 0, sc > 0, fa >= 0, fb >= 0, fc >= 0;
            assert(fa * sb >= fb * sa && fb * sc > fc * sb ==> fa * sc > fc * sa) by (nonlinear_arith)
                requires sa > 0, sb > 0, sc > 0, fa >= 0, fb >= 0, fc >= 0;
            if fa * sb == fb * sa && fb * sc == fc * sb {
                assert(fa * sc == fc * sa) by (nonlinear_arith)
                    requires sa > 0, sb > 0, sc > 0, fa * sb == fb * sa, fb * sc == fc * sb;
                lemma_seq_lt_transitive(ta, tb, tc);
            }
        },
        PoolOrder::FeeRateMilli => {
            if fee_rate_milli(a) == fee_rate_milli(b) && fee_rate_milli(b) == fee_rate_milli(c) {
                lemma_seq_lt_transitive(ta, tb, tc);
            }
        },
    }
}

/// Of two transactions with different txids, one comes before the other.
pub proof fn lemma_pool_before_total(kind: PoolOrder, a: TransactionModel, b: TransactionModel)
    requires
        spec_txid(a) != spec_txid(b),
    ensures
        pool_before(kind, a, b) || pool_before(kind, b, a),
{
    assert(spec_txid(a)@ != spec_txid(b)@) by {
        if spec_txid(a)@ == spec_txid(b)@ {
            assert(spec_txid(a) =~= spec_txid(b));
        }
    }
    lemma_seq_lt_total(spec_txid(a)@, spec_txid(b)@);
    lemma_enc_transaction_nonempty(a);
    lemma_enc_transaction_nonempty(b);
}

/// The sort keys of one transaction.
struct TxKey {
    fee: u64,
    size: usize,
    txid: [u8; 32],
}

spec fn key_of(k: TxKey, t: TransactionModel) -> bool {
    k.fee == t.fee() && k.size == tx_size(t) && k.txid == spec_txid(t)
}

fn key_before(kind: &PoolOrder, a: &TxKey, b: &TxKey, ta: Ghost<TransactionModel>, tb: Ghost<TransactionModel>) -> (r: bool)
    requires
        key_of(*a, ta@),
        key_of(*b, tb@),
        *kind is FeeRateMilli ==> ta@.fee() * 1000 <= u64::MAX && tb@.fee() * 1000 <= u64::MAX,
    ensures
        r == pool_before(*kind, ta@, tb@),
{
    proof {
        lemma_enc_transaction_nonempty(ta@);
        lemma_enc_transaction_nonempty(tb@);
    }
    let lt = hash_lt(&a.txid, &b.txid);
    match kind {
        PoolOrder::FeePerByte => {
            assert((a.fee as u128) * (b.size as u128) <= 0xffff_ffff_ffff_ffff * 0xffff_ffff_ffff_ffff) by (nonlinear_arith)
                requires a.fee <= 0xffff_ffff_ffff_ffffu64, b.size as int <= 0xffff_ffff_ffff_ffff;
            assert((b.fee as u128) * (a.size as u128) <= 0xffff_ffff_ffff_ffff * 0xffff_ffff_ffff_ffff) by (nonlinear_arith)
                requires b.fee <= 0xffff_ffff_ffff_ffffu64, a.size as int <= 0xffff_ffff_ffff_ffff;
            let x = (a.fee as u128) * (b.size as u128);
            let y = (b.fee as u128) * (a.size as u128);
            x > y || (x == y && lt)
        },
        PoolOrder::FeeRateMilli => {
            let x = a.fee * 1000 / (a.size as u64);
            let y = b.fee * 1000 / (b.size as u64);
            x > y || (x == y && lt)
        },
    }
}

impl Mempool {
    #[verifier::type_invariant]
    closed spec fn keyed_by_txid(&self) -> bool {
        forall|k: [u8; 32]|
            #[trigger] self.transactions.map().dom().contains(k) ==> k == spec_txid(self.transactions.map()[k]@)
    }

    /// Every transaction is kept under its own txid.
    pub fn lemma_keyed_by_txid(&self)
        ensures
            forall|k: [u8; 32]| #[trigger] self@.dom().contains(k) ==> k == spec_txid(self@[k]),
    {
        proof {
            use_type_invariant(self);
        }
    }

    /// Creates a new empty mempool.
    pub fn new() -> (r: Mempool)
        ensures
            r@ == Map::<[u8; 32], TransactionModel>::empty(),
    {
        let r = Mempool { transactions: AssocList::new() };
        assert(r@ =~= Map::<[u8; 32], TransactionModel>::empty());
        r
    }

    /// Adds a transaction under its txid; `Ok(false)`, and no change, when one with that
    /// txid is already there.
    pub fn add_transaction(&mut self, tx: Transaction) -> (r: Result<bool, ConsensusError>)
        ensures
            old(self)@.dom().contains(spec_txid(tx@)) ==> r == Ok::<bool, ConsensusError>(false) && final(self)@ == old(self)@,
            !old(self)@.dom().contains(spec_txid(tx@)) ==> r == Ok::<bool, ConsensusError>(true) && final(self)@ == old(self)@.insert(spec_txid(tx@), tx@),
    {
        proof {
            use_type_invariant(&*self);
        }
        let txid = tx.txid();
        if self.transactions.contains_key(&txid) {
            return Ok(false);
        }
        let mut transactions = AssocList::new();
        std::mem::swap(&mut transactions, &mut self.transactions);
        transactions.insert(txid, tx);
        self.transactions = transactions;
        assert(self@ =~= old(self)@.insert(spec_txid(tx@), tx@));
        Ok(true)
    }

    /// Removes a transaction from the mempool.
    pub fn remove_transaction(&mut self, txid: &[u8; 32]) -> (r: Option<Transaction>)
        ensures
            final(self)@ == old(self)@.remove(*txid),
            r matches Some(t) ==> old(self)@.dom().contains(*txid) && t@ == old(self)@[*txid],
            r is None ==> !old(self)@.dom().contains(*txid),
    {
        proof {
            use_type_invariant(&*self);
        }
        let mut transactions = AssocList::new();
        std::mem::swap(&mut transactions, &mut self.transactions);
        let r = transactions.remove(txid);
        self.transactions = transactions;
        assert(self@ =~= old(self)@.remove(*txid));
        r
    }

    /// Gets a transaction from the mempool by its ID.
    pub fn get_transaction(&self, txid: &[u8; 32]) -> (r: Option<&Transaction>)
        ensures
            r matches Some(t) ==> self@.dom().contains(*txid) && t@ == self@[*txid],
            r is None ==> !self@.dom().contains(*txid),
    {
        self.transactions.get(txid)
    }

    /// Returns the number of transactions in the mempool.
    pub fn len(&self) -> (r: usize)
        ensures
            r == self@.dom().len(),
    {
        let r = self.transactions.len();
        assert(self@.dom() =~= self.transactions.map().dom());
        r
    }

    /// Checks if the mempool is empty.
    pub fn is_empty(&self) -> (r: bool)
        ensures
            r == (self@.dom().len() == 0),
    {
        self.len() == 0
    }

    pub fn contains_transaction(&self, txid: &[u8; 32]) -> (r: bool)
        ensures
            r == self@.dom().contains(*txid),
    {
        self.transactions.contains_key(txid)
    }

    /// Copies of every transaction, in the order they were added.
    pub fn get_transactions(&self) -> (r: Vec<Transaction>)
        ensures
            r@.len() == self@.dom().len(),
            forall|i: int| 0 <= i < r@.len() ==> self@.dom().contains(spec_txid(#[trigger] r@[i]@)) && self@[spec_txid(r@[i]@)] == r@[i]@,
            forall|i: int, j: int| 0 <= i < j < r@.len() ==> spec_txid(#[trigger] r@[i]@) != spec_txid(#[trigger] r@[j]@),
    {
        proof {
            use_type_invariant(self);
        }
        self.transactions.lemma_wf();
        let entries = self.transactions.entries();
        let ghost s = self.transactions.seq();
        let mut r: Vec<Transaction> = Vec::new();
        let mut i: usize = 0;
        while i < entries.len()
            invariant
                i <= entries@.len(),
                entries@ == s,
                r@.len() == i,
                forall|j: int| #![trigger r@[j]] 0 <= j < i ==> r@[j]@ == s[j].1@,
            decreases entries@.len() - i,
        {
            r.push(entries[i].1.deep_copy());
            i = i + 1;
        }
        proof {
            assert(self@.dom() =~= self.transactions.map().dom());
            assert forall|j: int| 0 <= j < r@.len() implies self@.dom().contains(spec_txid(#[trigger] r@[j]@)) && self@[spec_txid(r@[j]@)] == r@[j]@ by {
                assert(self.transactions.map().dom().contains(s[j].0));
            }
            assert forall|a: int, b: int| 0 <= a < b < r@.len() implies spec_txid(#[trigger] r@[a]@) != spec_txid(#[trigger] r@[b]@) by {
                assert(self.transactions.map().dom().contains(s[a].0));
                assert(self.transactions.map().dom().contains(s[b].0));
                assert(s[a].0 != s[b].0);
            }
        }
        r
    }

    /// Removes every transaction.
    pub fn clear(&mut self)
        ensures
            final(self)@ == Map::<[u8; 32], TransactionModel>::empty(),
    {
        self.transactions = AssocList::new();
        assert(self@ =~= Map::<[u8; 32], TransactionModel>::empty());
    }

    /// Copies of every transaction, listed in the given order.
    fn sorted_transactions(&self, kind: PoolOrder) -> (r: Vec<Transaction>)
        requires
            kind is FeeRateMilli ==> fees_scale(self@),
        ensures
            sorted_pool(self@, kind, txs_view(r@)),
    {
        proof {
            use_type_invariant(self);
        }
        self.transactions.lemma_wf();
        let entries = self.transactions.entries();
        let ghost s = self.transactions.seq();
        let ghost pool = self@;
        assert(pool.dom() =~= self.transactions.map().dom());
        let n = entries.len();
        assert forall|j: int| 0 <= j < n implies s[j].0 == spec_txid(#[trigger] s[j].1@) && pool.dom().contains(s[j].0) && pool[s[j].0] == s[j].1@ by {
            assert(self.transactions.map().dom().contains(s[j].0));
        }
        assert(kind is FeeRateMilli ==> forall|j: int| 0 <= j < n ==> (#[trigger] s[j].1@).fee() * 1000 <= u64::MAX) by {
            if kind is FeeRateMilli {
                assert forall|j: int| 0 <= j < n implies (#[trigger] s[j].1@).fee() * 1000 <= u64::MAX by {
                    assert(pool.dom().contains(s[j].0));
                }
            }
        }
        let mut keys: Vec<TxKey> = Vec::new();
        let mut i: usize = 0;
        while i < n
            invariant
                i <= n == entries@.len(),
                entries@ == s,
                keys@.len() == i,
                forall|j: int| 0 <= j < i ==> key_of(#[trigger] keys@[j], s[j].1@),
                forall|j: int| 0 <= j < n ==> s[j].0 == spec_txid(#[trigger] s[j].1@),
            decreases n - i,
        {
            let tx = &entries[i].1;
            keys.push(TxKey { fee: tx.get_fee(), size: tx.encoded_size(), txid: entries[i].0 });
            i = i + 1;
        }
        let mut remaining: Vec<usize> = Vec::new();
        let mut i: usize = 0;
        while i < n
            invariant
                i <= n,
                remaining@.len() == i,
                forall|j: int| 0 <= j < i ==> #[trigger] remaining@[j] == j,
            decreases n - i,
        {
            remaining.push(i);
            i = i + 1;
        }
        let mut result: Vec<Transaction> = Vec::new();
        let ghost mut taken: Seq<int> = Seq::empty();
        while remaining.len() > 0
            invariant
                n == entries@.len() == keys@.len(),
                entries@ == s,
                pool == self@,
                crate::assoc::distinct_keys(s),
                forall|j: int| 0 <= j < n ==> key_of(#[trigger] keys@[j], s[j].1@),
                forall|j: int| 0 <= j < n ==> s[j].0 == spec_txid(#[trigger] s[j].1@),
                forall|j: int| 0 <= j < n ==> pool.dom().contains(#[trigger] s[j].0) && pool[s[j].0] == s[j].1@,
                kind is FeeRateMilli ==> forall|j: int| 0 <= j < n ==> (#[trigger] s[j].1@).fee() * 1000 <= u64::MAX,
                forall|j: int| 0 <= j < remaining@.len() ==> (#[trigger] remaining@[j]) < n,
                forall|a: int, b: int| 0 <= a < b < remaining@.len() ==> remaining@[a] != remaining@[b],
                taken.len() == result@.len(),
                result@.len() + remaining@.len() == n,
                forall|q: int| 0 <= q < taken.len() ==> 0 <= #[trigger] taken[q] < n && result@[q]@ == s[taken[q]].1@,
                forall|q: int, j: int| 0 <= q < taken.len() && 0 <= j < remaining@.len() ==> #[trigger] taken[q] != #[trigger] remaining@[j],
                forall|a: int, b: int| 0 <= a < b < result@.len() ==> pool_before(kind, #[trigger] result@[a]@, #[trigger] result@[b]@),
                forall|q: int, j: int| 0 <= q < result@.len() && 0 <= j < remaining@.len() ==> pool_before(kind, #[trigger] result@[q]@, s[#[trigger] remaining@[j] as int].1@),
            decreases remaining@.len(),
        {
            let mut p: usize = 0;
            let mut j: usize = 1;
            while j < remaining.len()
                invariant
                    n == entries@.len() == keys@.len(),
                    entries@ == s,
                    crate::assoc::distinct_keys(s),
                    forall|x: int| 0 <= x < n ==> key_of(#[trigger] keys@[x], s[x].1@),
                    forall|x: int| 0 <= x < n ==> s[x].0 == spec_txid(#[trigger] s[x].1@),
                    kind is FeeRateMilli ==> forall|x: int| 0 <= x < n ==> (#[trigger] s[x].1@).fee() * 1000 <= u64::MAX,
                    forall|x: int| 0 <= x < remaining@.len() ==> (#[trigger] remaining@[x]) < n,
                    forall|a: int, b: int| 0 <= a < b < remaining@.len() ==> remaining@[a] != remaining@[b],
                    1 <= j <= remaining@.len(),
                    p < j,
                    forall|x: int| 0 <= x < j && x != p ==> pool_before(kind, s[remaining@[p as int] as int].1@, s[#[trigger] remaining@[x] as int].1@),
                decreases remaining@.len() - j,
            {
                let ghost tc = s[remaining@[j as int] as int].1@;
                let ghost tb = s[remaining@[p as int] as int].1@;
                if key_before(&kind, &keys[remaining[j]], &keys[remaining[p]], Ghost(tc), Ghost(tb)) {
                    proof {
                        assert forall|x: int| 0 <= x < j + 1 && x != j implies pool_before(kind, tc, s[#[trigger] remaining@[x] as int].1@) by {
                            if x != p {
                                lemma_pool_before_transitive(kind, tc, tb, s[remaining@[x] as int].1@);
                            }
                        }
                    }
                    p = j;
                } else {
                    proof {
                        let ic = remaining@[j as int] as int;
                        let ib = remaining@[p as int] as int;
                        assert(s[ic].0 != s[ib].0) by {
                            if ic < ib {
                                assert(s[ic].0 != s[ib].0);
                            } else {
                                assert(s[ib].0 != s[ic].0);
                            }
                        }
                        lemma_pool_before_total(kind, tc, tb);
                    }
                }
                j = j + 1;
            }
            let ghost rem_before = remaining@;
            let idx = remaining.remove(p);
            let ghost best = s[idx as int].1@;
            result.push(entries[idx].1.deep_copy());
            proof {
                assert forall|q: int, x: int| 0 <= q < result@.len() && 0 <= x < remaining@.len() implies pool_before(kind, #[trigger] result@[q]@, s[#[trigger] remaining@[x] as int].1@) by {
                    let xo = if x < p { x } else { x + 1 };
                    assert(remaining@[x] == rem_before[xo]);
                    if q < result@.len() - 1 {
                    } else {
                        assert(xo != p);
                    }
                }
                assert forall|a: int, b: int| 0 <= a < b < result@.len() implies pool_before(kind, #[trigger] result@[a]@, #[trigger] result@[b]@) by {
                    if b == result@.len() - 1 {
                        assert(rem_before[p as int] == idx);
                    }
                }
                taken = taken.push(idx as int);
                assert forall|q: int, x: int| 0 <= q < taken.len() && 0 <= x < remaining@.len() implies #[trigger] taken[q] != #[trigger] remaining@[x] by {
                    let xo = if x < p { x } else { x + 1 };
                    assert(remaining@[x] == rem_before[xo]);
                    if q == taken.len() - 1 {
                        assert(xo != p);
                    }
                }
            }
        }
        proof {
            let v = txs_view(result@);
            assert forall|i: int| 0 <= i < v.len() implies pool.dom().contains(spec_txid(#[trigger] v[i])) && pool[spec_txid(v[i])] == v[i] by {
                assert(v[i] == s[taken[i]].1@);
            }
            assert forall|a: int, b: int| 0 <= a < b < v.len() implies pool_before(kind, #[trigger] v[a], #[trigger] v[b]) by {
                assert(v[a] == result@[a]@);
                assert(v[b] == result@[b]@);
            }
        }
        result
    }

    /// Every transaction, highest fee per byte first; equal rates go by increasing txid.
    pub fn get_all_transactions(&self) -> (r: Vec<Transaction>)
        ensures
            sorted_pool(self@, PoolOrder::FeePerByte, txs_view(r@)),
    {
        self.sorted_transactions(PoolOrder::FeePerByte)
    }

    /// The transactions for a block of at most `max_block_size` bytes: in order of fee per
    /// thousand bytes (rounded down), highest first and equal rates by increasing txid,
    /// taken while they fit; the first that does not fit ends the selection.
    pub fn get_transactions_for_block_template(&self, max_block_size: u64) -> (r: Vec<Transaction>)
        requires
            fees_scale(self@),
        ensures
            exists|s: Seq<TransactionModel>|
                sorted_pool(self@, PoolOrder::FeeRateMilli, s) && txs_view(r@) == s.take(
                    fit_count(s, max_block_size as nat, 0, 0) as int,
                ),
    {
        let sorted = self.sorted_transactions(PoolOrder::FeeRateMilli);
        let ghost s = txs_view(sorted@);
        let ghost pool = self@;
        assert(sorted_pool(pool, PoolOrder::FeeRateMilli, s));
        let mut selected: Vec<Transaction> = Vec::new();
        let mut current_size: u64 = 0;
        let mut i: usize = 0;
        while i < sorted.len()
            invariant
                i <= sorted@.len(),
                s == txs_view(sorted@),
                pool == self@,
                sorted_pool(pool, PoolOrder::FeeRateMilli, s),
                current_size <= max_block_size,
                fit_count(s, max_block_size as nat, 0, 0) == fit_count(s, max_block_size as nat, i as nat, current_size as nat),
                txs_view(selected@) == s.take(i as int),
            decreases sorted@.len() - i,
        {
            let tx_size = sorted[i].encoded_size() as u64;
            assert(s[i as int] == sorted@[i as int]@);
            if tx_size <= max_block_size - current_size {
                let ghost old_sel = selected@;
                let c = sorted[i].deep_copy();
                selected.push(c);
                assert(selected@ == old_sel.push(c));
                assert(txs_view(selected@) =~= txs_view(old_sel).push(s[i as int]));
                assert(s.take(i + 1) =~= s.take(i as int).push(s[i as int]));
                current_size = current_size + tx_size;
                i = i + 1;
            } else {
                assert(fit_count(s, max_block_size as nat, i as nat, current_size as nat) == i);
                assert(sorted_pool(pool, PoolOrder::FeeRateMilli, s) && txs_view(selected@) == s.take(fit_count(s, max_block_size as nat, 0, 0) as int));
                return selected;
            }
        }
        assert(s.take(i as int) =~= s);
        assert(fit_count(s, max_block_size as nat, i as nat, current_size as nat) == i);
        assert(sorted_pool(pool, PoolOrder::FeeRateMilli, s) && txs_view(selected@) == s.take(fit_count(s, max_block_size as nat, 0, 0) as int));
        selected
    }
}

/// The largest encoding the pool admits.
pub const MAX_POOL_TX_BYTES: usize = 100_000;

/// The smallest output value the pool admits.
pub const POOL_DUST_LIMIT: u64 = 546;

/// The smallest fee the pool admits.
pub const MIN_POOL_FEE: u64 = 1000;

/// The largest fee per byte the pool admits.
pub const MAX_POOL_FEE_RATE: u64 = 10000;

/// The largest locking script the pool admits.
pub const MAX_POOL_SCRIPT_BYTES: usize = 10000;

/// A transaction the pool could hold: not a coinbase, with inputs and outputs, at most
/// 100 000 bytes encoded, and no output of zero or below the dust limit.
pub open spec fn structure_ok(tx: Transaction) -> bool {
    let outs = tx.spec_outputs();
    &&& !(tx is Coinbase)
    &&& tx.spec_inputs().len() > 0
    &&& outs.len() > 0
    &&& tx_size(tx@) <= MAX_POOL_TX_BYTES
    &&& forall|i: int| 0 <= i < outs.len() ==> (#[trigger] outs[i]).value != 0 && outs[i].value >= POOL_DUST_LIMIT
}

/// Every input with an unlocking script spends an output the set holds, and passes the
/// standard check on a fresh machine.
pub open spec fn signatures_ok(tx: Transaction, utxos: Map<OutPoint, UtxoModel>) -> bool {
    let ins = tx.spec_inputs();
    forall|i: int|
        0 <= i < ins.len() && (#[trigger] ins[i]).script_sig@.len() > 0 ==> utxos.dom().contains(ins[i].previous_output)
            && spec_execute_standard(
            EngineModel::initial(),
            ins[i].script_sig@,
            utxos[ins[i].previous_output].output.script_pubkey,
            tx,
            i,
        ).1 is Ok
}

/// Whether a transaction of the pool spends this outpoint.
pub open spec fn pool_spends(pool: Map<[u8; 32], TransactionModel>, op: OutPoint) -> bool {
    exists|k: [u8; 32], j: int|
        #![trigger pool[k].inputs()[j]]
        pool.dom().contains(k) && 0 <= j < pool[k].inputs().len() && pool[k].inputs()[j].previous_output == op
}

/// Every input spends an output the set holds that no pool transaction spends.
pub open spec fn inputs_ok(pool: Map<[u8; 32], TransactionModel>, tx: Transaction, utxos: Map<OutPoint, UtxoModel>) -> bool {
    let ins = tx.spec_inputs();
    forall|i: int| 0 <= i < ins.len() ==> utxos.dom().contains((#[trigger] ins[i]).previous_output) && !pool_spends(pool, ins[i].previous_output)
}

/// No input spends an outpoint a pool transaction spends.
pub open spec fn no_conflicts(pool: Map<[u8; 32], TransactionModel>, tx: Transaction) -> bool {
    let ins = tx.spec_inputs();
    forall|i: int| 0 <= i < ins.len() ==> !pool_spends(pool, (#[trigger] ins[i]).previous_output)
}

/// The input values of the first `n` inputs added with saturation at `u64::MAX`.
pub open spec fn saturating_input_sum(utxos: Map<OutPoint, UtxoModel>, ins: Seq<TxInput>, n: nat) -> nat
    decreases n,
{
    if n == 0 {
        0
    } else {
        let t: nat = saturating_input_sum(utxos, ins, (n - 1) as nat) + utxos[ins[n - 1].previous_output].output.value as nat;
        if t > u64::MAX { u64::MAX as nat } else { t }
    }
}

/// Every input is in the set, and the fee (inputs, added with saturation, less outputs) is
/// at least 1000 and at most 10 000 per byte of the transaction.
pub open spec fn fees_ok(tx: Transaction, utxos: Map<OutPoint, UtxoModel>) -> bool {
    let ins = tx.spec_inputs();
    let outs = tx.spec_outputs();
    let input_value = saturating_input_sum(utxos, ins, ins.len());
    let output_value = crate::consensus::utxo_set::sum_outputs(outs, outs.len());
    &&& forall|i: int| 0 <= i < ins.len() ==> utxos.dom().contains((#[trigger] ins[i]).previous_output)
    &&& input_value >= output_value
    &&& input_value - output_value >= MIN_POOL_FEE
    &&& input_value - output_value <= tx_size(tx@) * MAX_POOL_FEE_RATE
}

/// The scripts of every input run to true against the outputs they spend.
pub open spec fn scripts_ok(tx: Transaction, utxos: Map<OutPoint, UtxoModel>, height: u64) -> bool {
    spec_validate_from(EngineModel::initial(), tx, utxos, height, 0).1
}

/// No locking script of the transaction is over 10 000 bytes.
pub open spec fn policy_ok(tx: Transaction) -> bool {
    let outs = tx.spec_outputs();
    forall|i: int| 0 <= i < outs.len() ==> (#[trigger] outs[i]).script_pubkey@.len() <= MAX_POOL_SCRIPT_BYTES
}

/// The message of the first admission check a transaction fails, if any.
pub open spec fn admission_failure(
    pool: Map<[u8; 32], TransactionModel>,
    tx: Transaction,
    utxos: Map<OutPoint, UtxoModel>,
    height: u64,
) -> Option<Seq<char>> {
    if !structure_ok(tx) {
        Some("Transaction structure validation failed"@)
    } else if !signatures_ok(tx, utxos) {
        Some("Transaction signature validation failed"@)
    } else if !inputs_ok(pool, tx, utxos) {
        Some("Transaction input validation failed"@)
    } else if !fees_ok(tx, utxos) {
        Some("Transaction fee validation failed"@)
    } else if !scripts_ok(tx, utxos, height) {
        Some("Transaction script validation failed"@)
    } else if !policy_ok(tx) {
        Some("Transaction policy validation failed"@)
    } else if !no_conflicts(pool, tx) {
        Some("Transaction conflicts with existing mempool transactions"@)
    } else {
        None
    }
}

/// A transaction whose inputs are worth less than its outputs plus 1000 is never admitted:
/// some admission check refuses it.
pub proof fn law_pool_refuses_low_fee(
    pool: Map<[u8; 32], TransactionModel>,
    tx: Transaction,
    utxos: Map<OutPoint, UtxoModel>,
    height: u64,
)
    requires
        saturating_input_sum(utxos, tx.spec_inputs(), tx.spec_inputs().len())
            < crate::consensus::utxo_set::sum_outputs(tx.spec_outputs(), tx.spec_outputs().len()) + 1000,
    ensures
        admission_failure(pool, tx, utxos, height) is Some,
{
}

/// The outputs sum fits a `u64` whenever the fee check is reached.
pub open spec fn admission_sums_fit(pool: Map<[u8; 32], TransactionModel>, tx: Transaction, utxos: Map<OutPoint, UtxoModel>) -> bool {
    structure_ok(tx) && signatures_ok(tx, utxos) && inputs_ok(pool, tx, utxos)
        ==> crate::consensus::utxo_set::sum_outputs(tx.spec_outputs(), tx.spec_outputs().len()) <= u64::MAX
}

impl Mempool {
    /// Whether a transaction of the pool spends this outpoint.
    fn spends(&self, op: &OutPoint) -> (r: bool)
        ensures
            r == pool_spends(self@, *op),
    {
        proof {
            use_type_invariant(self);
        }
        self.transactions.lemma_wf();
        let entries = self.transactions.entries();
        let ghost s = self.transactions.seq();
        let ghost pool = self@;
        assert(pool.dom() =~= self.transactions.map().dom());
        assert forall|j: int| 0 <= j < s.len() implies pool.dom().contains(#[trigger] s[j].0) && pool[s[j].0] == s[j].1@ by {
            assert(self.transactions.map().dom().contains(s[j].0));
        }
        let mut i: usize = 0;
        while i < entries.len()
            invariant
                i <= entries@.len(),
                entries@ == s,
                pool == self@,
                forall|j: int| 0 <= j < s.len() ==> pool.dom().contains(#[trigger] s[j].0) && pool[s[j].0] == s[j].1@,
                forall|k: [u8; 32]| pool.dom().contains(k) ==> exists|j: int| 0 <= j < s.len() && #[trigger] s[j].0 == k,
                forall|j: int, q: int| 0 <= j < i && 0 <= q < s[j].1@.inputs().len() ==> (#[trigger] s[j].1@.inputs()[q]).previous_output != *op,
            decreases entries@.len() - i,
        {
            let ins = entries[i].1.get_inputs();
            let mut q: usize = 0;
            proof {
                crate::types::lemma_view_fields(s[i as int].1);
            }
            while q < ins.len()
                invariant
                    i < entries@.len(),
                    entries@ == s,
                    pool == self@,
                    forall|j: int| 0 <= j < s.len() ==> pool.dom().contains(#[trigger] s[j].0) && pool[s[j].0] == s[j].1@,
                    s[i as int].1@.inputs() == crate::types::inputs_view(s[i as int].1.spec_inputs()),
                    q <= ins@.len(),
                    ins@ == entries@[i as int].1.spec_inputs(),
                    forall|x: int| 0 <= x < q ==> ins@[x].previous_output != *op,
                decreases ins@.len() - q,
            {
                if crate::types::outpoint_eq(&ins[q].previous_output, op) {
                    proof {
                        let k = s[i as int].0;
                        assert(pool[k].inputs()[q as int] == ins@[q as int]@);
                    }
                    return true;
                }
                q = q + 1;
            }
            proof {
                assert forall|x: int| 0 <= x < (s[i as int].1@).inputs().len() implies (#[trigger] s[i as int].1@.inputs()[x]).previous_output != *op by {
                    assert(s[i as int].1@.inputs()[x] == ins@[x]@);
                }
            }
            i = i + 1;
        }
        proof {
            if pool_spends(pool, *op) {
                let (k, q) = choose|k: [u8; 32], q: int| #![trigger pool[k].inputs()[q]] pool.dom().contains(k) && 0 <= q < pool[k].inputs().len() && pool[k].inputs()[q].previous_output == *op;
                let j = choose|j: int| 0 <= j < s.len() && s[j].0 == k;
                assert(pool[k] == s[j].1@);
            }
        }
        false
    }

    /// Checks the shape of a transaction the pool could hold.
    fn validate_transaction_structure(&self, tx: &Transaction) -> (r: Result<bool, ConsensusError>)
        ensures
            r == Ok::<bool, ConsensusError>(structure_ok(*tx)),
    {
        if tx.is_coinbase() {
            return Ok(false);
        }
        let inputs = tx.get_inputs();
        let outputs = tx.get_outputs();
        if inputs.len() == 0 {
            return Ok(false);
        }
        if outputs.len() == 0 {
            return Ok(false);
        }
        let tx_size = tx.encoded_size();
        if tx_size > MAX_POOL_TX_BYTES {
            return Ok(false);
        }
        let mut i: usize = 0;
        while i < outputs.len()
            invariant
                i <= outputs@.len(),
                outputs@ == tx.spec_outputs(),
                forall|j: int| 0 <= j < i ==> (#[trigger] outputs@[j]).value != 0 && outputs@[j].value >= POOL_DUST_LIMIT,
            decreases outputs@.len() - i,
        {
            if outputs[i].value == 0 {
                return Ok(false);
            }
            if outputs[i].value < POOL_DUST_LIMIT {
                return Ok(false);
            }
            i = i + 1;
        }
        Ok(true)
    }

    /// Checks each input with an unlocking script against the output it spends.
    fn validate_transaction_signatures(&self, tx: &Transaction, utxo_set: &UtxoSet) -> (r: Result<bool, ConsensusError>)
        ensures
            r == Ok::<bool, ConsensusError>(signatures_ok(*tx, utxo_set@)),
    {
        let inputs = tx.get_inputs();
        let mut input_index: usize = 0;
        while input_index < inputs.len()
            invariant
                input_index <= inputs@.len(),
                inputs@ == tx.spec_inputs(),
                forall|i: int|
                    0 <= i < input_index && (#[trigger] inputs@[i]).script_sig@.len() > 0 ==> utxo_set@.dom().contains(inputs@[i].previous_output)
                        && spec_execute_standard(
                        EngineModel::initial(),
                        inputs@[i].script_sig@,
                        utxo_set@[inputs@[i].previous_output].output.script_pubkey,
                        *tx,
                        i,
                    ).1 is Ok,
            decreases inputs@.len() - input_index,
        {
            let input = &inputs[input_index];
            if input.script_sig.len() == 0 {
                input_index = input_index + 1;
                continue ;
            }
            let mut script_engine = ScriptEngine::new();
            let prev_output = match self.get_utxo_for_input(input, utxo_set) {
                Some(utxo) => utxo,
                None => return Ok(false),
            };
            match script_engine.execute_standard_script(
                input.script_sig.as_slice(),
                prev_output.script_pubkey.as_slice(),
                tx,
                input_index,
            ) {
                Ok(()) => {},
                Err(_) => return Ok(false),
            }
            input_index = input_index + 1;
        }
        Ok(true)
    }

    /// Checks that every input spends an output the set holds and no pool transaction spends.
    fn validate_transaction_inputs(&self, tx: &Transaction, utxo_set: &UtxoSet) -> (r: Result<bool, ConsensusError>)
        ensures
            r == Ok::<bool, ConsensusError>(inputs_ok(self@, *tx, utxo_set@)),
    {
        let inputs = tx.get_inputs();
        let mut i: usize = 0;
        while i < inputs.len()
            invariant
                i <= inputs@.len(),
                inputs@ == tx.spec_inputs(),
                forall|j: int| 0 <= j < i ==> utxo_set@.dom().contains((#[trigger] inputs@[j]).previous_output) && !pool_spends(self@, inputs@[j].previous_output),
            decreases inputs@.len() - i,
        {
            let outpoint = &inputs[i].previous_output;
            if utxo_set.get_utxo(outpoint).is_none() {
                return Ok(false);
            }
            if self.spends(outpoint) {
                return Ok(false);
            }
            i = i + 1;
        }
        Ok(true)
    }

    /// Checks the fee: inputs (added with saturation) less outputs, at least 1000 and at
    /// most 10 000 per byte.
    fn validate_transaction_fees(&self, tx: &Transaction, utxo_set: &UtxoSet) -> (r: Result<bool, ConsensusError>)
        requires
            (forall|i: int| 0 <= i < tx.spec_inputs().len() ==> utxo_set@.dom().contains((#[trigger] tx.spec_inputs()[i]).previous_output))
                ==> crate::consensus::utxo_set::sum_outputs(tx.spec_outputs(), tx.spec_outputs().len()) <= u64::MAX,
            tx_size(tx@) <= MAX_POOL_TX_BYTES,
        ensures
            r == Ok::<bool, ConsensusError>(fees_ok(*tx, utxo_set@)),
    {
        let inputs = tx.get_inputs();
        let outputs = tx.get_outputs();
        let mut input_value: u64 = 0;
        let mut i: usize = 0;
        while i < inputs.len()
            invariant
                i <= inputs@.len(),
                inputs@ == tx.spec_inputs(),
                input_value == saturating_input_sum(utxo_set@, inputs@, i as nat),
                forall|j: int| 0 <= j < i ==> utxo_set@.dom().contains((#[trigger] inputs@[j]).previous_output),
            decreases inputs@.len() - i,
        {
            match utxo_set.get_utxo(&inputs[i].previous_output) {
                Some(utxo) => {
                    input_value = input_value.saturating_add(utxo.output.value);
                },
                None => return Ok(false),
            }
            i = i + 1;
        }
        let mut output_value: u64 = 0;
        let mut k: usize = 0;
        while k < outputs.len()
            invariant
                k <= outputs@.len(),
                outputs@ == tx.spec_outputs(),
                output_value == crate::consensus::utxo_set::sum_outputs(outputs@, k as nat),
                crate::consensus::utxo_set::sum_outputs(outputs@, outputs@.len()) <= u64::MAX,
            decreases outputs@.len() - k,
        {
            proof {
                crate::consensus::utxo_set::lemma_sum_outputs_monotone(outputs@, (k + 1) as nat, outputs@.len());
            }
            output_value = output_value + outputs[k].value;
            k = k + 1;
        }
        if input_value < output_value {
            return Ok(false);
        }
        let fee = input_value - output_value;
        if fee < MIN_POOL_FEE {
            return Ok(false);
        }
        let tx_size = tx.encoded_size() as u64;
        if fee > tx_size * MAX_POOL_FEE_RATE {
            return Ok(false);
        }
        Ok(true)
    }

    /// Runs the scripts of every input against the outputs they spend.
    fn validate_transaction_scripts(&self, tx: &Transaction, utxo_set: &UtxoSet, current_height: u64) -> (r: Result<bool, ConsensusError>)
        requires
            height_in_bounds(current_height),
            tx.spec_inputs().len() <= MAX_COUNTED_INPUTS,
        ensures
            r == Ok::<bool, ConsensusError>(scripts_ok(*tx, utxo_set@, current_height)),
    {
        let mut script_engine = ScriptEngine::new();
        assert(EngineModel::initial().with_sig_ops(0) == EngineModel::initial());
        if !script_engine.validate_transaction(tx, utxo_set, current_height) {
            return Ok(false);
        }
        Ok(true)
    }

    /// Checks the pool's policy: no locking script over 10 000 bytes.
    fn validate_transaction_policy(&self, tx: &Transaction) -> (r: Result<bool, ConsensusError>)
        ensures
            r == Ok::<bool, ConsensusError>(policy_ok(*tx)),
    {
        let outputs = tx.get_outputs();
        let mut i: usize = 0;
        while i < outputs.len()
            invariant
                i <= outputs@.len(),
                outputs@ == tx.spec_outputs(),
                forall|j: int| 0 <= j < i ==> (#[trigger] outputs@[j]).script_pubkey@.len() <= MAX_POOL_SCRIPT_BYTES,
            decreases outputs@.len() - i,
        {
            if outputs[i].script_pubkey.len() > MAX_POOL_SCRIPT_BYTES {
                return Ok(false);
            }
            i = i + 1;
        }
        Ok(true)
    }

    /// Checks that no input spends an outpoint a pool transaction spends.
    fn validate_no_conflicts(&self, tx: &Transaction) -> (r: Result<bool, ConsensusError>)
        ensures
            r == Ok::<bool, ConsensusError>(no_conflicts(self@, *tx)),
    {
        let inputs = tx.get_inputs();
        let mut i: usize = 0;
        while i < inputs.len()
            invariant
                i <= inputs@.len(),
                inputs@ == tx.spec_inputs(),
                forall|j: int| 0 <= j < i ==> !pool_spends(self@, (#[trigger] inputs@[j]).previous_output),
            decreases inputs@.len() - i,
        {
            if self.spends(&inputs[i].previous_output) {
                return Ok(false);
            }
            i = i + 1;
        }
        Ok(true)
    }

    /// A copy of the output an input spends, if the set holds it.
    fn get_utxo_for_input(&self, input: &TxInput, utxo_set: &UtxoSet) -> (r: Option<TxOutput>)
        ensures
            r matches Some(o) ==> utxo_set@.dom().contains(input.previous_output) && o@ == utxo_set@[input.previous_output].output,
            r is None ==> !utxo_set@.dom().contains(input.previous_output),
    {
        match utxo_set.get_utxo(&input.previous_output) {
            Some(utxo) => Some(utxo.output.deep_copy()),
            None => None,
        }
    }

    /// Checks a transaction (shape, signatures, inputs, fee, scripts, policy, conflicts) and
    /// admits it under its txid; `Ok(false)` when the pool has it already, the message of
    /// the first failed check otherwise.
    pub fn validate_and_add_transaction(
        &mut self,
        tx: Transaction,
        utxo_set: &UtxoSet,
        current_height: u64,
    ) -> (r: Result<bool, ConsensusError>)
        requires
            height_in_bounds(current_height),
            tx.spec_inputs().len() <= MAX_COUNTED_INPUTS,
            admission_sums_fit(old(self)@, tx, utxo_set@),
        ensures
            old(self)@.dom().contains(spec_txid(tx@)) ==> r == Ok::<bool, ConsensusError>(false) && final(self)@ == old(self)@,
            !old(self)@.dom().contains(spec_txid(tx@)) ==> match admission_failure(old(self)@, tx, utxo_set@, current_height) {
                Some(msg) => (r matches Err(ConsensusError::TransactionValidation(m)) && m@ == msg) && final(self)@ == old(self)@,
                None => r == Ok::<bool, ConsensusError>(true) && final(self)@ == old(self)@.insert(spec_txid(tx@), tx@),
            },
            ({
                let ins = tx.spec_inputs();
                let outs = tx.spec_outputs();
                let paid = saturating_input_sum(utxo_set@, ins, ins.len()) - crate::consensus::utxo_set::sum_outputs(outs, outs.len());
                paid < 1000 ==> final(self)@ == old(self)@ && (!old(self)@.dom().contains(spec_txid(tx@)) ==> r is Err)
            }),
    {
        let txid = tx.txid();
        if self.contains_transaction(&txid) {
            return Ok(false);
        }
        match self.validate_transaction_structure(&tx) {
            Ok(true) => {},
            _ => return Err(ConsensusError::TransactionValidation(message("Transaction structure validation failed"))),
        }
        match self.validate_transaction_signatures(&tx, utxo_set) {
            Ok(true) => {},
            _ => return Err(ConsensusError::TransactionValidation(message("Transaction signature validation failed"))),
        }
        match self.validate_transaction_inputs(&tx, utxo_set) {
            Ok(true) => {},
            _ => return Err(ConsensusError::TransactionValidation(message("Transaction input validation failed"))),
        }
        proof {
            assert forall|i: int| 0 <= i < tx.spec_inputs().len() implies utxo_set@.dom().contains((#[trigger] tx.spec_inputs()[i]).previous_output) by {}
        }
        match self.validate_transaction_fees(&tx, utxo_set) {
            Ok(true) => {},
            _ => return Err(ConsensusError::TransactionValidation(message("Transaction fee validation failed"))),
        }
        match self.validate_transaction_scripts(&tx, utxo_set, current_height) {
            Ok(true) => {},
            _ => return Err(ConsensusError::TransactionValidation(message("Transaction script validation failed"))),
        }
        match self.validate_transaction_policy(&tx) {
            Ok(true) => {},
            _ => return Err(ConsensusError::TransactionValidation(message("Transaction policy validation failed"))),
        }
        match self.validate_no_conflicts(&tx) {
            Ok(true) => {},
            _ => return Err(ConsensusError::TransactionValidation(message("Transaction conflicts with existing mempool transactions"))),
        }
        self.add_transaction(tx)
    }
}

/// A transaction added to a pool that did not hold its txid is found again under its
/// txid, and removing it gives back the pool there was.
pub proof fn law_mempool_remove_undoes_add(pool: Map<[u8; 32], TransactionModel>, t: TransactionModel)
    requires
        !pool.dom().contains(spec_txid(t)),
    ensures
        pool.insert(spec_txid(t), t).dom().contains(spec_txid(t)),
        pool.insert(spec_txid(t), t)[spec_txid(t)] == t,
        pool.insert(spec_txid(t), t).remove(spec_txid(t)) == pool,
{
    assert(pool.insert(spec_txid(t), t).remove(spec_txid(t)) =~= pool);
}

} // verus!
