//! What a synchronisation keeps between steps: its state, retry counts with exponential
//! back-off, a memory budget and timing samples. Times are spans in nanoseconds.
use vstd::prelude::*;
use std::collections::VecDeque;

verus! {

/// The longest span a `std::time::Duration` can hold, in nanoseconds.
pub const MAX_SPAN_NANOS: u128 = 18_446_744_073_709_551_615_999_999_999;

/// Sync state for persistence and resumption.
#[derive(Debug, Clone, Copy, PartialEq, Eq)]
pub struct SyncState {
    pub is_syncing: bool,
    pub current_height: u64,
    pub target_height: u64,
    pub sync_type: SyncType,
    pub last_checkpoint: u64,
    pub reorg_detected: bool,
    pub reorg_depth: u64,
}

/// The kind of synchronisation under way.
#[derive(Debug, Clone, Copy, PartialEq, Eq)]
pub enum SyncType {
    InitialBlockDownload,
    HeaderFirstSync,
    CatchupSync,
    ReorgSync,
}

impl Default for SyncState {
    fn default() -> (r: SyncState)
        ensures
            !r.is_syncing,
            r.current_height == 0,
            r.target_height == 0,
            r.sync_type == SyncType::InitialBlockDownload,
            r.last_checkpoint == 0,
            !r.reorg_detected,
            r.reorg_depth == 0,
    {
        SyncState {
            is_syncing: false,
            current_height: 0,
            target_height: 0,
            sync_type: SyncType::InitialBlockDownload,
            last_checkpoint: 0,
            reorg_detected: false,
            reorg_depth: 0,
        }
    }
}

/// How many times an operation is retried.
pub const MAX_RETRIES: u32 = 5;

/// The delay before the first retry: 100 ms.
pub const BASE_RETRY_DELAY_NANOS: u128 = 100_000_000;

/// The longest delay between retries: 30 s.
pub const MAX_RETRY_DELAY_NANOS: u128 = 30_000_000_000;

/// Retry counts per operation, with exponential back-off.
pub struct ErrorRecovery {
    retry_counts: Vec<(String, u32)>,
    max_retries: u32,
    base_delay_nanos: u128,
}

/// Whether the operations of a list of counts are distinct.
pub open spec fn distinct_operations(s: Seq<(String, u32)>) -> bool {
    forall|i: int, j: int| 0 <= i < j < s.len() ==> s[i].0@ != s[j].0@
}

/// The count a list holds for an operation, if any.
pub open spec fn counts_map(s: Seq<(String, u32)>) -> Map<Seq<char>, u32> {
    Map::new(
        |op: Seq<char>| exists|i: int| 0 <= i < s.len() && s[i].0@ == op,
        |op: Seq<char>| s[choose|i: int| 0 <= i < s.len() && s[i].0@ == op].1,
    )
}

/// The retry count of an operation: zero when it was never counted.
pub open spec fn retry_count(m: Map<Seq<char>, u32>, op: Seq<char>) -> u32 {
    if m.dom().contains(op) { m[op] } else { 0 }
}

/// The delay before the `count`-th retry: 100 ms doubled for each earlier retry, at most
/// 30 s.
pub open spec fn retry_delay(count: nat) -> int {
    let d = BASE_RETRY_DELAY_NANOS * vstd::arithmetic::power2::pow2((count - 1) as nat);
    if d < MAX_RETRY_DELAY_NANOS { d } else { MAX_RETRY_DELAY_NANOS as int }
}

proof fn lemma_counts_at(s: Seq<(String, u32)>, i: int)
    requires
        distinct_operations(s),
        0 <= i < s.len(),
    ensures
        counts_map(s).dom().contains(s[i].0@),
        counts_map(s)[s[i].0@] == s[i].1,
{
    let op = s[i].0@;
    let j = choose|j: int| 0 <= j < s.len() && s[j].0@ == op;
    if j != i {
        if j < i {
            assert(s[j].0@ != s[i].0@);
        } else {
            assert(s[i].0@ != s[j].0@);
        }
    }
}

impl ErrorRecovery {
    /// The retry count of each operation counted so far.
    pub closed spec fn counts(&self) -> Map<Seq<char>, u32> {
        counts_map(self.retry_counts@)
    }

    #[verifier::type_invariant]
    closed spec fn well_formed(&self) -> bool {
        &&& distinct_operations(self.retry_counts@)
        &&& self.max_retries == MAX_RETRIES
        &&& self.base_delay_nanos == BASE_RETRY_DELAY_NANOS
    }

    pub fn new() -> (r: ErrorRecovery)
        ensures
            r.counts() == Map::<Seq<char>, u32>::empty(),
    {
        let r = ErrorRecovery { retry_counts: Vec::new(), max_retries: MAX_RETRIES, base_delay_nanos: BASE_RETRY_DELAY_NANOS };
        assert(r.counts() =~= Map::<Seq<char>, u32>::empty());
        r
    }

    /// The position of an operation's count.
    fn find(&self, operation: &String) -> (r: Option<usize>)
        ensures
            r matches Some(i) ==> i < self.retry_counts@.len() && self.retry_counts@[i as int].0@ == operation@,
            r is None ==> !self.counts().dom().contains(operation@),
    {
        let mut i: usize = 0;
        while i < self.retry_counts.len()
            invariant
                i <= self.retry_counts@.len(),
                forall|j: int| 0 <= j < i ==> self.retry_counts@[j].0@ != operation@,
            decreases self.retry_counts@.len() - i,
        {
            if self.retry_counts[i].0 == *operation {
                return Some(i);
            }
            i = i + 1;
        }
        None
    }

    /// Makes sure the operation is counted (from zero) and returns the position of its
    /// count; no other count changes.
    fn entry(&mut self, operation: &str) -> (r: usize)
        ensures
            r < final(self).retry_counts@.len(),
            final(self).retry_counts@[r as int].0@ == operation@,
            final(self).retry_counts@[r as int].1 == retry_count(old(self).counts(), operation@),
            final(self).counts() == old(self).counts().insert(operation@, retry_count(old(self).counts(), operation@)),
    {
        proof {
            use_type_invariant(&*self);
        }
        let key = operation.to_owned();
        match self.find(&key) {
            Some(i) => {
                proof {
                    lemma_counts_at(self.retry_counts@, i as int);
                    assert(self.counts() =~= old(self).counts().insert(operation@, retry_count(old(self).counts(), operation@)));
                }
                i
            },
            None => {
                let ghost s0 = self.retry_counts@;
                let mut counts = Vec::new();
                std::mem::swap(&mut counts, &mut self.retry_counts);
                counts.push((key, 0u32));
                let ghost s1 = counts@;
                assert(distinct_operations(s1)) by {
                    assert forall|a: int, b: int| 0 <= a < b < s1.len() implies s1[a].0@ != s1[b].0@ by {
                        if b == s1.len() - 1 {
                            assert(s1[a] == s0[a]);
                            assert(!counts_map(s0).dom().contains(operation@));
                        }
                    }
                }
                self.retry_counts = counts;
                let n = self.retry_counts.len() - 1;
                proof {
                    assert forall|op: Seq<char>| #![auto] counts_map(s1).dom().contains(op) <==> counts_map(s0).dom().insert(operation@).contains(op) by {
                        if counts_map(s1).dom().contains(op) {
                            let i = choose|i: int| 0 <= i < s1.len() && s1[i].0@ == op;
                            if i < s0.len() {
                                assert(s0[i] == s1[i]);
                            }
                        }
                        if counts_map(s0).dom().contains(op) {
                            let i = choose|i: int| 0 <= i < s0.len() && s0[i].0@ == op;
                            assert(s1[i] == s0[i]);
                        }
                        if op == operation@ {
                            assert(s1[s1.len() - 1].0@ == op);
                        }
                    }
                    assert forall|op: Seq<char>| #![auto] counts_map(s1).dom().contains(op) implies counts_map(s1)[op] == counts_map(s0).insert(operation@, 0)[op] by {
                        let i = choose|i: int| 0 <= i < s1.len() && s1[i].0@ == op;
                        lemma_counts_at(s1, i);
                        if op != operation@ {
                            assert(i < s0.len());
                            assert(s0[i] == s1[i]);
                            lemma_counts_at(s0, i);
                        } else {
                            lemma_counts_at(s1, s1.len() - 1);
                        }
                    }
                    assert(self.counts() =~= old(self).counts().insert(operation@, retry_count(old(self).counts(), operation@)));
                    lemma_counts_at(s1, n as int);
                }
                n
            },
        }
    }

    /// How many times the operation has been retried (zero when it was never counted).
    pub fn retries(&self, operation: &str) -> (r: u32)
        ensures
            r == retry_count(self.counts(), operation@),
    {
        proof {
            use_type_invariant(self);
        }
        let key = operation.to_owned();
        match self.find(&key) {
            Some(i) => {
                proof {
                    lemma_counts_at(self.retry_counts@, i as int);
                }
                self.retry_counts[i].1
            },
            None => 0,
        }
    }

    /// Whether the operation may be retried: it has been retried fewer than five times.
    /// The operation is counted from zero if it was not counted.
    pub fn should_retry(&mut self, operation: &str) -> (r: bool)
        ensures
            final(self).counts() == old(self).counts().insert(operation@, retry_count(old(self).counts(), operation@)),
            r == (retry_count(old(self).counts(), operation@) < MAX_RETRIES),
    {
        let i = self.entry(operation);
        proof {
            use_type_invariant(&*self);
        }
        self.retry_counts[i].1 < self.max_retries
    }

    /// Counts one more retry of the operation and returns the delay to wait before it.
    pub fn get_retry_delay(&mut self, operation: &str) -> (r: u128)
        requires
            retry_count(old(self).counts(), operation@) < 32,
        ensures
            final(self).counts() == old(self).counts().insert(operation@, (retry_count(old(self).counts(), operation@) + 1) as u32),
            r == retry_delay((retry_count(old(self).counts(), operation@) + 1) as nat),
    {
        let i = self.entry(operation);
        proof {
            use_type_invariant(&*self);
        }
        let ghost before = self.retry_counts@;
        let mut counts = Vec::new();
        std::mem::swap(&mut counts, &mut self.retry_counts);
        let (key, c) = counts.remove(i);
        let count = c + 1;
        counts.insert(i, (key, count));
        let ghost after = counts@;
        assert(after =~= before.update(i as int, (key, count)));
        assert(distinct_operations(after)) by {
            assert forall|a: int, b: int| 0 <= a < b < after.len() implies after[a].0@ != after[b].0@ by {
                assert(after[a].0@ == before[a].0@);
                assert(after[b].0@ == before[b].0@);
            }
        }
        self.retry_counts = counts;
        proof {
            assert forall|op: Seq<char>| #![auto] counts_map(after).dom().contains(op) <==> counts_map(before).dom().contains(op) by {
                if counts_map(after).dom().contains(op) {
                    let j = choose|j: int| 0 <= j < after.len() && after[j].0@ == op;
                    assert(before[j].0@ == op);
                }
                if counts_map(before).dom().contains(op) {
                    let j = choose|j: int| 0 <= j < before.len() && before[j].0@ == op;
                    assert(after[j].0@ == op);
                }
            }
            assert forall|op: Seq<char>| #![auto] counts_map(after).dom().contains(op) implies counts_map(after)[op] == counts_map(before).insert(operation@, count)[op] by {
                let j = choose|j: int| 0 <= j < after.len() && after[j].0@ == op;
                lemma_counts_at(after, j);
                lemma_counts_at(before, j);
            }
            assert(self.counts() =~= counts_map(before).insert(operation@, count));
        }
        let shift: u64 = (count - 1) as u64;
        proof {
            vstd::arithmetic::power2::lemma2_to64();
            if shift < 31 {
                vstd::arithmetic::power2::lemma_pow2_strictly_increases(shift as nat, 31);
            }
            vstd::bits::lemma_u64_shl_is_mul(1, shift);
        }
        let factor: u128 = (1u64 << shift) as u128;
        assert(factor == vstd::arithmetic::power2::pow2(shift as nat));
        let delay = self.base_delay_nanos * factor;
        if delay < MAX_RETRY_DELAY_NANOS {
            delay
        } else {
            MAX_RETRY_DELAY_NANOS
        }
    }

    /// Forgets the operation's retries.
    pub fn reset_operation(&mut self, operation: &str)
        ensures
            final(self).counts() == old(self).counts().remove(operation@),
    {
        proof {
            use_type_invariant(&*self);
        }
        let key = operation.to_owned();
        match self.find(&key) {
            Some(i) => {
                let ghost before = self.retry_counts@;
                let mut counts = Vec::new();
                std::mem::swap(&mut counts, &mut self.retry_counts);
                counts.remove(i);
                let ghost after = counts@;
                assert(after =~= before.remove(i as int));
                assert(distinct_operations(after)) by {
                    assert forall|a: int, b: int| 0 <= a < b < after.len() implies after[a].0@ != after[b].0@ by {
                        let ao = if a < i { a } else { a + 1 };
                        let bo = if b < i { b } else { b + 1 };
                        assert(after[a] == before[ao]);
                        assert(after[b] == before[bo]);
                    }
                }
                self.retry_counts = counts;
                proof {
                    assert forall|op: Seq<char>| #![auto] counts_map(after).dom().contains(op) <==> counts_map(before).remove(operation@).dom().contains(op) by {
                        if counts_map(after).dom().contains(op) {
                            let j = choose|j: int| 0 <= j < after.len() && after[j].0@ == op;
                            let jo = if j < i { j } else { j + 1 };
                            assert(after[j] == before[jo]);
                            assert(jo != i);
                        }
                        if counts_map(before).dom().contains(op) && op != operation@ {
                            let j = choose|j: int| 0 <= j < before.len() && before[j].0@ == op;
                            assert(j != i);
                            let jn = if j < i { j } else { j - 1 };
                            assert(after[jn] == before[j]);
                        }
                    }
                    assert forall|op: Seq<char>| #![auto] counts_map(after).dom().contains(op) implies counts_map(after)[op] == counts_map(before)[op] by {
                        let j = choose|j: int| 0 <= j < after.len() && after[j].0@ == op;
                        let jo = if j < i { j } else { j + 1 };
                        assert(after[j] == before[jo]);
                        lemma_counts_at(after, j);
                        lemma_counts_at(before, jo);
                    }
                    assert(self.counts() =~= old(self).counts().remove(operation@));
                }
            },
            None => {
                assert(self.counts() =~= old(self).counts().remove(operation@));
            },
        }
    }

    /// Forgets every operation's retries.
    pub fn clear_all(&mut self)
        ensures
            final(self).counts() == Map::<Seq<char>, u32>::empty(),
    {
        proof {
            use_type_invariant(&*self);
        }
        let mut counts = Vec::new();
        std::mem::swap(&mut counts, &mut self.retry_counts);
        counts.clear();
        self.retry_counts = counts;
        assert(self.counts() =~= Map::<Seq<char>, u32>::empty());
    }
}

/// Whether an operation may be retried given the counts: it was retried fewer than five
/// times.
pub open spec fn may_retry(m: Map<Seq<char>, u32>, op: Seq<char>) -> bool {
    retry_count(m, op) < MAX_RETRIES
}

/// After its retries are forgotten, an operation may be retried again.
pub proof fn law_reset_allows_retry(m: Map<Seq<char>, u32>, op: Seq<char>)
    ensures
        may_retry(m.remove(op), op),
{
}

/// Once an operation has been delayed five times from scratch, it may not be retried.
pub proof fn law_retries_run_out(m: Map<Seq<char>, u32>, op: Seq<char>)
    requires
        !m.dom().contains(op),
    ensures
        !may_retry(m.insert(op, 1).insert(op, 2).insert(op, 3).insert(op, 4).insert(op, 5), op),
        forall|k: u32| 0 <= k < 5 ==> may_retry(m.insert(op, k), op),
{
}

/// Each delay doubles the one before it until the 30 s cap.
pub proof fn law_retry_delay_doubles(count: nat)
    requires
        count >= 1,
    ensures
        retry_delay(count + 1) == if 2 * retry_delay(count) < MAX_RETRY_DELAY_NANOS { 2 * retry_delay(count) } else { MAX_RETRY_DELAY_NANOS as int },
        retry_delay(count) <= MAX_RETRY_DELAY_NANOS,
{
    vstd::arithmetic::power2::lemma_pow2_unfold(count);
    vstd::arithmetic::power2::lemma_pow2_pos((count - 1) as nat);
    let p = vstd::arithmetic::power2::pow2((count - 1) as nat);
    assert(vstd::arithmetic::power2::pow2(count) == 2 * p);
    assert(BASE_RETRY_DELAY_NANOS * (2 * p) == 2 * (BASE_RETRY_DELAY_NANOS * p)) by (nonlinear_arith);
}

/// A memory budget for large synchronisations; usage never exceeds the budget.
pub struct MemoryManager {
    max_memory_usage: usize,
    current_usage: usize,
}

impl MemoryManager {
    /// The budget, in bytes.
    pub closed spec fn budget(&self) -> nat {
        self.max_memory_usage as nat
    }

    /// The bytes in use.
    pub closed spec fn usage(&self) -> nat {
        self.current_usage as nat
    }

    #[verifier::type_invariant]
    closed spec fn within_budget(&self) -> bool {
        self.current_usage <= self.max_memory_usage
    }

    pub fn new(max_memory_usage: usize) -> (r: MemoryManager)
        ensures
            r.budget() == max_memory_usage,
            r.usage() == 0,
    {
        MemoryManager { max_memory_usage, current_usage: 0 }
    }

    /// Takes `size` more bytes if they fit in the budget.
    pub fn allocate(&mut self, size: usize) -> (r: bool)
        ensures
            final(self).budget() == old(self).budget(),
            r == (old(self).usage() + size <= old(self).budget()),
            r ==> final(self).usage() == old(self).usage() + size,
            !r ==> final(self).usage() == old(self).usage(),
    {
        proof {
            use_type_invariant(&*self);
        }
        if size <= self.max_memory_usage - self.current_usage {
            self.current_usage = self.current_usage + size;
            true
        } else {
            false
        }
    }

    /// Gives back `size` bytes (no more than are in use).
    pub fn deallocate(&mut self, size: usize)
        ensures
            final(self).budget() == old(self).budget(),
            final(self).usage() == if old(self).usage() >= size { old(self).usage() - size } else { 0 },
    {
        proof {
            use_type_invariant(&*self);
        }
        if size <= self.current_usage {
            self.current_usage = self.current_usage - size;
        } else {
            self.current_usage = 0;
        }
    }

    /// Whether usage is above 80% of the budget.
    pub fn should_cleanup(&self) -> (r: bool)
        ensures
            r == (10 * self.usage() > 8 * self.budget()),
    {
        (self.current_usage as u128) * 10 > (self.max_memory_usage as u128) * 8
    }

    /// The bytes in use.
    pub fn current_usage(&self) -> (r: usize)
        ensures
            r == self.usage(),
            r <= self.budget(),
    {
        proof {
            use_type_invariant(self);
        }
        self.current_usage
    }

    /// The budget, in bytes.
    pub fn max_memory_usage(&self) -> (r: usize)
        ensures
            r == self.budget(),
    {
        self.max_memory_usage
    }
}

/// The total of a list of spans.
pub open spec fn span_sum(s: Seq<u128>) -> nat
    decreases s.len(),
{
    if s.len() == 0 {
        0
    } else {
        span_sum(s.drop_last()) + (s.last() as nat)
    }
}

/// The samples kept after one more: the newest `max` at most.
pub open spec fn with_sample(s: Seq<u128>, max: nat, x: u128) -> Seq<u128> {
    let t = s.push(x);
    if t.len() > max { t.drop_first() } else { t }
}

/// The mean of a list of spans, rounded down to the nanosecond; none of an empty list.
pub open spec fn mean_span(s: Seq<u128>) -> Option<u128> {
    if s.len() == 0 { None } else { Some((span_sum(s) / s.len()) as u128) }
}

/// Adds a sample, dropping the oldest when there are more than `max`.
fn record_sample(samples: &mut VecDeque<u128>, max: usize, x: u128)
    ensures
        final(samples)@ == with_sample(old(samples)@, max as nat, x),
{
    samples.push_back(x);
    if samples.len() > max {
        samples.pop_front();
        assert(samples@ =~= old(samples)@.push(x).drop_first());
    }
}

/// Whether the samples total no more than a `Duration` holds.
fn sum_fits(samples: &VecDeque<u128>) -> (r: bool)
    ensures
        r == (span_sum(samples@) <= MAX_SPAN_NANOS),
{
    let n = samples.len();
    let mut total: u128 = 0;
    let mut i: usize = 0;
    while i < n
        invariant
            n == samples@.len(),
            i <= n,
            total == span_sum(samples@.take(i as int)),
            total <= MAX_SPAN_NANOS,
        decreases n - i,
    {
        proof {
            assert(samples@.take(i as int + 1).drop_last() =~= samples@.take(i as int));
        }
        if samples[i] > MAX_SPAN_NANOS - total {
            proof {
                lemma_span_sum_prefix(samples@, i as int + 1);
            }
            return false;
        }
        total = total + samples[i];
        i = i + 1;
    }
    assert(samples@.take(n as int) =~= samples@);
    true
}

/// The mean of the samples, as `mean_span` states.
fn average_sample(samples: &VecDeque<u128>) -> (r: Option<u128>)
    requires
        span_sum(samples@) <= MAX_SPAN_NANOS,
    ensures
        r == mean_span(samples@),
{
    let n = samples.len();
    if n == 0 {
        return None;
    }
    let mut total: u128 = 0;
    let mut i: usize = 0;
    while i < n
        invariant
            n == samples@.len(),
            i <= n,
            span_sum(samples@) <= MAX_SPAN_NANOS,
            total == span_sum(samples@.take(i as int)),
        decreases n - i,
    {
        proof {
            lemma_span_sum_prefix(samples@, i as int + 1);
            assert(samples@.take(i as int + 1).drop_last() =~= samples@.take(i as int));
        }
        total = total + samples[i];
        i = i + 1;
    }
    assert(samples@.take(n as int) =~= samples@);
    Some(total / (n as u128))
}

/// A prefix never sums to more than the whole.
pub proof fn lemma_span_sum_prefix(s: Seq<u128>, k: int)
    requires
        0 <= k <= s.len(),
    ensures
        span_sum(s.take(k)) <= span_sum(s),
    decreases s.len() - k,
{
    if k < s.len() {
        lemma_span_sum_prefix(s, k + 1);
        assert(s.take(k + 1).drop_last() =~= s.take(k));
    } else {
        assert(s.take(k) =~= s);
    }
}

/// Timing samples: download times, validation times and network latencies, the newest
/// `max_samples` of each.
pub struct PerformanceMonitor {
    download_times: VecDeque<u128>,
    validation_times: VecDeque<u128>,
    network_latency: VecDeque<u128>,
    max_samples: usize,
}

impl PerformanceMonitor {
    pub closed spec fn downloads(&self) -> Seq<u128> {
        self.download_times@
    }

    pub closed spec fn validations(&self) -> Seq<u128> {
        self.validation_times@
    }

    pub closed spec fn latencies(&self) -> Seq<u128> {
        self.network_latency@
    }

    pub closed spec fn sample_limit(&self) -> nat {
        self.max_samples as nat
    }

    /// No window holds more samples than the limit.
    #[verifier::type_invariant]
    closed spec fn within_limit(&self) -> bool {
        &&& self.download_times@.len() <= self.max_samples
        &&& self.validation_times@.len() <= self.max_samples
        &&& self.network_latency@.len() <= self.max_samples
    }

    /// Every window holds at most the limit of samples; this states the type's invariant
    /// for a caller's proof and does nothing at run time.
    pub fn lemma_within_limit(&self)
        ensures
            self.downloads().len() <= self.sample_limit(),
            self.validations().len() <= self.sample_limit(),
            self.latencies().len() <= self.sample_limit(),
    {
        proof {
            use_type_invariant(self);
        }
    }

    pub fn new(max_samples: usize) -> (r: PerformanceMonitor)
        ensures
            r.downloads() == Seq::<u128>::empty(),
            r.validations() == Seq::<u128>::empty(),
            r.latencies() == Seq::<u128>::empty(),
            r.sample_limit() == max_samples,
    {
        PerformanceMonitor {
            download_times: VecDeque::with_capacity(max_samples),
            validation_times: VecDeque::with_capacity(max_samples),
            network_latency: VecDeque::with_capacity(max_samples),
            max_samples,
        }
    }

    pub fn record_download_time(&mut self, duration_nanos: u128)
        ensures
            final(self).downloads() == with_sample(old(self).downloads(), old(self).sample_limit(), duration_nanos),
            final(self).validations() == old(self).validations(),
            final(self).latencies() == old(self).latencies(),
            final(self).sample_limit() == old(self).sample_limit(),
    {
        proof {
            use_type_invariant(&*self);
        }
        let mut samples: VecDeque<u128> = VecDeque::new();
        std::mem::swap(&mut samples, &mut self.download_times);
        proof {
            law_window_bounded(samples@, self.max_samples as nat, duration_nanos);
        }
        record_sample(&mut samples, self.max_samples, duration_nanos);
        self.download_times = samples;
    }

    pub fn record_validation_time(&mut self, duration_nanos: u128)
        ensures
            final(self).validations() == with_sample(old(self).validations(), old(self).sample_limit(), duration_nanos),
            final(self).downloads() == old(self).downloads(),
            final(self).latencies() == old(self).latencies(),
            final(self).sample_limit() == old(self).sample_limit(),
    {
        proof {
            use_type_invariant(&*self);
        }
        let mut samples: VecDeque<u128> = VecDeque::new();
        std::mem::swap(&mut samples, &mut self.validation_times);
        proof {
            law_window_bounded(samples@, self.max_samples as nat, duration_nanos);
        }
        record_sample(&mut samples, self.max_samples, duration_nanos);
        self.validation_times = samples;
    }

    pub fn record_network_latency(&mut self, latency_nanos: u128)
        ensures
            final(self).latencies() == with_sample(old(self).latencies(), old(self).sample_limit(), latency_nanos),
            final(self).downloads() == old(self).downloads(),
            final(self).validations() == old(self).validations(),
            final(self).sample_limit() == old(self).sample_limit(),
    {
        proof {
            use_type_invariant(&*self);
        }
        let mut samples: VecDeque<u128> = VecDeque::new();
        std::mem::swap(&mut samples, &mut self.network_latency);
        proof {
            law_window_bounded(samples@, self.max_samples as nat, latency_nanos);
        }
        record_sample(&mut samples, self.max_samples, latency_nanos);
        self.network_latency = samples;
    }

    /// Whether each kind of sample totals no more than a `Duration` holds, so that its
    /// mean can be taken.
    pub fn averages_defined(&self) -> (r: bool)
        ensures
            r == (span_sum(self.downloads()) <= MAX_SPAN_NANOS && span_sum(self.validations()) <= MAX_SPAN_NANOS
                && span_sum(self.latencies()) <= MAX_SPAN_NANOS),
    {
        sum_fits(&self.download_times) && sum_fits(&self.validation_times) && sum_fits(&self.network_latency)
    }

    /// The mean download time, when the samples total no more than a `Duration` holds.
    pub fn get_average_download_time(&self) -> (r: Option<u128>)
        requires
            span_sum(self.downloads()) <= MAX_SPAN_NANOS,
        ensures
            r == mean_span(self.downloads()),
    {
        average_sample(&self.download_times)
    }

    /// The mean validation time, when the samples total no more than a `Duration` holds.
    pub fn get_average_validation_time(&self) -> (r: Option<u128>)
        requires
            span_sum(self.validations()) <= MAX_SPAN_NANOS,
        ensures
            r == mean_span(self.validations()),
    {
        average_sample(&self.validation_times)
    }

    /// The mean network latency, when the samples total no more than a `Duration` holds.
    pub fn get_average_network_latency(&self) -> (r: Option<u128>)
        requires
            span_sum(self.latencies()) <= MAX_SPAN_NANOS,
        ensures
            r == mean_span(self.latencies()),
    {
        average_sample(&self.network_latency)
    }
}

/// A window never holds more samples than its limit once it is within it.
pub proof fn law_window_bounded(s: Seq<u128>, max: nat, x: u128)
    requires
        s.len() <= max,
    ensures
        with_sample(s, max, x).len() <= max,
        with_sample(s, max, x).len() > 0 ==> with_sample(s, max, x).last() == x,
{
}

} // verus!
