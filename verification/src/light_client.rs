//! The state a light client keeps: the block headers it has accepted, the state root at
//! each height, the sizes of the proofs it has cached, and its best block. Requests to
//! peers are made around it; what they bring back is handed to it as plain values.
use vstd::prelude::*;
use crate::assoc::AssocList;
use crate::bytes::{hash_eq, hash_is_zero, is_zero_hash};
use crate::consensus::error::{message, ConsensusError};
use crate::encoding::spec_header_hash;
use crate::types::BlockHeader;

verus! {

/// The settings a light client runs with.
#[derive(Debug, Clone)]
pub struct LightClientConfig {
    /// The full nodes trusted to answer proof requests.
    pub trusted_nodes: Vec<String>,
    /// How many proof requests may run at once.
    pub max_concurrent_requests: usize,
    /// How long a proof request may take, in seconds.
    pub request_timeout_secs: u64,
    /// How long a header request may take, in seconds.
    pub header_timeout_secs: u64,
    /// How many peers a request needs.
    pub min_peers_required: usize,
    /// Whether proofs are cached.
    pub enable_caching: bool,
    /// How many proofs the cache may hold.
    pub cache_size_limit: usize,
    /// How many times a failed request is retried.
    pub max_retries: u32,
    /// The delay before a retry, in milliseconds.
    pub retry_delay_ms: u64,
}

impl Default for LightClientConfig {
    fn default() -> (r: LightClientConfig)
        ensures
            r.trusted_nodes@.len() == 1,
            r.trusted_nodes@[0]@ == "127.0.0.1:8333"@,
            r.max_concurrent_requests == 10,
            r.request_timeout_secs == 30,
            r.header_timeout_secs == 15,
            r.min_peers_required == 1,
            r.enable_caching,
            r.cache_size_limit == 1000,
            r.max_retries == 3,
            r.retry_delay_ms == 1000,
    {
        let mut trusted_nodes: Vec<String> = Vec::new();
        trusted_nodes.push(message("127.0.0.1:8333"));
        LightClientConfig {
            trusted_nodes,
            max_concurrent_requests: 10,
            request_timeout_secs: 30,
            header_timeout_secs: 15,
            min_peers_required: 1,
            enable_caching: true,
            cache_size_limit: 1000,
            max_retries: 3,
            retry_delay_ms: 1000,
        }
    }
}

/// How a light client picks the peer it asks.
#[derive(Debug, Clone, Copy, PartialEq, Eq)]
pub enum PeerSelectionStrategy {
    /// The peer with the highest reputation.
    HighestReputation,
    /// The peer with the lowest latency.
    LowestLatency,
    /// A peer at random.
    Random,
    /// The trusted nodes first.
    TrustedFirst,
}

/// What a light client holds, in numbers.
#[derive(Debug, Clone, Copy, PartialEq, Eq)]
pub struct LightClientStats {
    pub best_block_height: u64,
    pub cached_headers: usize,
    pub cached_state_roots: usize,
    pub cached_proofs: usize,
    pub trusted_nodes: usize,
}

/// A light client's view of the chain.
pub struct LightClient {
    config: LightClientConfig,
    block_headers: AssocList<[u8; 32], BlockHeader>,
    state_roots: AssocList<u64, [u8; 32]>,
    proof_sizes: AssocList<[u8; 32], usize>,
    best_block_height: u64,
    best_block_hash: [u8; 32],
    peer_selection_strategy: PeerSelectionStrategy,
}

/// Whether a header extends a client whose best hash is `best_hash`: a genesis header
/// always does, as does any header while no best block is known; otherwise it must name
/// the best block.
pub open spec fn header_connects(h: BlockHeader, best_hash: [u8; 32]) -> bool {
    h.height == 0 || h.previous_block_hash == best_hash || is_zero_hash(best_hash)
}

impl LightClient {
    /// The accepted headers, by their hash.
    pub closed spec fn headers(&self) -> Map<[u8; 32], BlockHeader> {
        self.block_headers.map()
    }

    /// The known state roots, by height.
    pub closed spec fn roots(&self) -> Map<u64, [u8; 32]> {
        self.state_roots.map()
    }

    /// The cached proofs' sizes in bytes, by cache key.
    pub closed spec fn proofs(&self) -> Map<[u8; 32], usize> {
        self.proof_sizes.map()
    }

    pub closed spec fn best_height(&self) -> u64 {
        self.best_block_height
    }

    pub closed spec fn best_hash(&self) -> [u8; 32] {
        self.best_block_hash
    }

    pub closed spec fn strategy(&self) -> PeerSelectionStrategy {
        self.peer_selection_strategy
    }

    pub closed spec fn caching(&self) -> bool {
        self.config.enable_caching
    }

    pub closed spec fn trusted_count(&self) -> nat {
        self.config.trusted_nodes@.len()
    }

    /// A client that knows no header, with no best block and the trusted-first strategy.
    pub fn new(config: LightClientConfig) -> (r: LightClient)
        ensures
            r.headers() == Map::<[u8; 32], BlockHeader>::empty(),
            r.roots() == Map::<u64, [u8; 32]>::empty(),
            r.proofs() == Map::<[u8; 32], usize>::empty(),
            r.best_height() == 0,
            is_zero_hash(r.best_hash()),
            r.strategy() == PeerSelectionStrategy::TrustedFirst,
            r.caching() == config.enable_caching,
            r.trusted_count() == config.trusted_nodes@.len(),
    {
        let r = LightClient {
            config,
            block_headers: AssocList::new(),
            state_roots: AssocList::new(),
            proof_sizes: AssocList::new(),
            best_block_height: 0,
            best_block_hash: [0u8; 32],
            peer_selection_strategy: PeerSelectionStrategy::TrustedFirst,
        };
        assert(is_zero_hash(r.best_block_hash));
        r
    }

    pub fn set_peer_selection_strategy(&mut self, strategy: PeerSelectionStrategy)
        ensures
            final(self).strategy() == strategy,
            final(self).headers() == old(self).headers(),
            final(self).roots() == old(self).roots(),
            final(self).proofs() == old(self).proofs(),
            final(self).best_height() == old(self).best_height(),
            final(self).best_hash() == old(self).best_hash(),
            final(self).caching() == old(self).caching(),
            final(self).trusted_count() == old(self).trusted_count(),
    {
        self.peer_selection_strategy = strategy;
    }

    /// Accepts a header that extends the client (`header_connects`): it is stored under
    /// its hash, its state root under its height, and it becomes the best block when it
    /// is higher. A header that does not connect is refused and nothing changes.
    pub fn update_block_header(&mut self, header: BlockHeader) -> (r: Result<(), ConsensusError>)
        ensures
            final(self).strategy() == old(self).strategy(),
            final(self).proofs() == old(self).proofs(),
            final(self).caching() == old(self).caching(),
            final(self).trusted_count() == old(self).trusted_count(),
            final(self).best_height() >= old(self).best_height(),
            !header_connects(header, old(self).best_hash()) ==> (r matches Err(ConsensusError::TrieError(m))
                && m@ == "Block header doesn't connect to chain"@)
                && final(self).headers() == old(self).headers() && final(self).roots() == old(self).roots()
                && final(self).best_height() == old(self).best_height() && final(self).best_hash() == old(self).best_hash(),
            header_connects(header, old(self).best_hash()) ==> r is Ok
                && final(self).headers() == old(self).headers().insert(spec_header_hash(header), header)
                && final(self).roots() == old(self).roots().insert(header.height, header.state_root)
                && (header.height > old(self).best_height() ==> final(self).best_height() == header.height
                    && final(self).best_hash() == spec_header_hash(header))
                && (header.height <= old(self).best_height() ==> final(self).best_height() == old(self).best_height()
                    && final(self).best_hash() == old(self).best_hash()),
    {
        let block_hash = header.hash();
        let block_height = header.height;
        if block_height > 0 && !hash_eq(&header.previous_block_hash, &self.best_block_hash) && !hash_is_zero(&self.best_block_hash) {
            return Err(ConsensusError::TrieError(message("Block header doesn't connect to chain")));
        }
        let state_root = header.state_root;
        self.block_headers.insert(block_hash, header);
        self.state_roots.insert(block_height, state_root);
        if block_height > self.best_block_height {
            self.best_block_height = block_height;
            self.best_block_hash = block_hash;
        }
        Ok(())
    }

    pub fn get_best_block_height(&self) -> (r: u64)
        ensures
            r == self.best_height(),
    {
        self.best_block_height
    }

    pub fn get_best_block_hash(&self) -> (r: [u8; 32])
        ensures
            r == self.best_hash(),
    {
        self.best_block_hash
    }

    /// How many headers, state roots, proofs and trusted nodes the client holds, with
    /// its best height.
    pub fn get_stats(&self) -> (r: LightClientStats)
        ensures
            r.best_block_height == self.best_height(),
            r.cached_headers == self.headers().dom().len(),
            r.cached_state_roots == self.roots().dom().len(),
            r.cached_proofs == self.proofs().dom().len(),
            r.trusted_nodes == self.trusted_count(),
    {
        LightClientStats {
            best_block_height: self.best_block_height,
            cached_headers: self.block_headers.len(),
            cached_state_roots: self.state_roots.len(),
            cached_proofs: self.proof_sizes.len(),
            trusted_nodes: self.config.trusted_nodes.len(),
        }
    }

    /// Empties the proof cache.
    pub fn clear_cache(&mut self)
        ensures
            final(self).proofs() == Map::<[u8; 32], usize>::empty(),
            final(self).headers() == old(self).headers(),
            final(self).roots() == old(self).roots(),
            final(self).best_height() == old(self).best_height(),
            final(self).best_hash() == old(self).best_hash(),
            final(self).strategy() == old(self).strategy(),
            final(self).caching() == old(self).caching(),
            final(self).trusted_count() == old(self).trusted_count(),
    {
        self.proof_sizes.clear();
    }

    /// Caches a verified proof's size under its cache key, when caching is on.
    pub fn cache_proof(&mut self, cache_key: [u8; 32], proof_size: usize)
        ensures
            old(self).caching() ==> final(self).proofs() == old(self).proofs().insert(cache_key, proof_size),
            !old(self).caching() ==> final(self).proofs() == old(self).proofs(),
            final(self).headers() == old(self).headers(),
            final(self).roots() == old(self).roots(),
            final(self).best_height() == old(self).best_height(),
            final(self).best_hash() == old(self).best_hash(),
            final(self).strategy() == old(self).strategy(),
            final(self).caching() == old(self).caching(),
            final(self).trusted_count() == old(self).trusted_count(),
    {
        if self.config.enable_caching {
            self.proof_sizes.insert(cache_key, proof_size);
        }
    }

    /// The state root known at a height.
    pub fn get_state_root_at_height(&self, height: u64) -> (r: Result<[u8; 32], ConsensusError>)
        ensures
            self.roots().dom().contains(height) ==> r == Ok::<[u8; 32], ConsensusError>(self.roots()[height]),
            !self.roots().dom().contains(height) ==> r == Err::<[u8; 32], ConsensusError>(ConsensusError::StateRootNotFound(height)),
    {
        match self.state_roots.get(&height) {
            Some(root) => Ok(*root),
            None => Err(ConsensusError::StateRootNotFound(height)),
        }
    }

    /// Checks that a proof was made against the state root known at its height.
    pub fn check_proof_state_root(&self, height: u64, proof_state_root: &[u8; 32]) -> (r: Result<(), ConsensusError>)
        ensures
            !self.roots().dom().contains(height) ==> r == Err::<(), ConsensusError>(ConsensusError::StateRootNotFound(height)),
            self.roots().dom().contains(height) && self.roots()[height] == *proof_state_root ==> r is Ok,
            self.roots().dom().contains(height) && self.roots()[height] != *proof_state_root ==> (r matches Err(ConsensusError::TrieError(m))
                && m@ == "State root mismatch"@),
    {
        let root = match self.get_state_root_at_height(height) {
            Ok(root) => root,
            Err(e) => {
                return Err(e);
            },
        };
        if !hash_eq(&root, proof_state_root) {
            return Err(ConsensusError::TrieError(message("State root mismatch")));
        }
        Ok(())
    }

    /// The total size of the cached proofs, in bytes; none when it overflows a `usize`.
    pub fn estimate_cache_size(&self) -> (r: Option<usize>)
        ensures
            proof_total(self.proofs_seq(), self.proofs_seq().len() as int) <= usize::MAX
                ==> r == Some(proof_total(self.proofs_seq(), self.proofs_seq().len() as int) as usize),
            proof_total(self.proofs_seq(), self.proofs_seq().len() as int) > usize::MAX ==> r is None,
    {
        let entries = self.proof_sizes.entries();
        let mut total: usize = 0;
        let mut i: usize = 0;
        while i < entries.len()
            invariant
                i <= entries@.len(),
                entries@ == self.proofs_seq(),
                total == proof_total(entries@, i as int),
            decreases entries@.len() - i,
        {
            if entries[i].1 > usize::MAX - total {
                proof {
                    lemma_proof_total_prefix(entries@, i as int + 1, entries@.len() as int);
                }
                return None;
            }
            total = total + entries[i].1;
            i = i + 1;
        }
        Some(total)
    }

    /// The cached proofs, in the order they were first cached.
    pub closed spec fn proofs_seq(&self) -> Seq<([u8; 32], usize)> {
        self.proof_sizes.seq()
    }

    /// Takes in the headers a peer sent for a request starting after `start_hash`: none
    /// is an error; otherwise the run of headers that each name the one before it (the
    /// first naming `start_hash`, unless that is zero) is taken in order, each stored as
    /// `update_block_header` stores it. The run is returned when every header of it
    /// connects to the client as it then stands; at the first that does not, the error is
    /// returned and the headers before it stay stored (`state_after`).
    pub fn accept_headers(&mut self, start_hash: [u8; 32], headers: Vec<BlockHeader>) -> (r: Result<Vec<BlockHeader>, ConsensusError>)
        ensures
            headers@.len() == 0 ==> (r matches Err(ConsensusError::NetworkError(m)) && m@ == "No headers received"@)
                && client_state(*final(self)) == client_state(*old(self)),
            ({
                let s0 = client_state(*old(self));
                let n = run_end(start_hash, headers@, 0);
                let m = first_refused(s0, headers@, 0, n);
                headers@.len() > 0 ==> {
                    &&& (r is Ok <==> m == n)
                    &&& (r is Ok <==> forall|k: int| 0 <= k < n ==> #[trigger] header_connects(headers@[k], state_after(s0, headers@, k).3))
                    &&& m == n ==> (r matches Ok(v) && v@ == headers@.take(n))
                    &&& m < n ==> (r matches Err(ConsensusError::TrieError(e)) && e@ == "Block header doesn't connect to chain"@)
                    &&& client_state(*final(self)) == state_after(s0, headers@, m)
                }
            }),
            r matches Ok(v) ==> headers@.len() > 0 && v@ == headers@.take(v@.len() as int)
                && accepted_run(start_hash, headers@, v@.len() as int)
                && (v@.len() < headers@.len() ==> !chain_step(start_hash, headers@, v@.len() as int)),
            final(self).proofs() == old(self).proofs(),
            final(self).strategy() == old(self).strategy(),
            final(self).caching() == old(self).caching(),
            final(self).trusted_count() == old(self).trusted_count(),
    {
        if headers.len() == 0 {
            return Err(ConsensusError::NetworkError(message("No headers received")));
        }
        let n = run_length(start_hash, &headers);
        proof {
            lemma_first_refused(client_state(*self), headers@, 0, n as int);
        }
        match self.store_run(&headers, n) {
            Ok(()) => {},
            Err(e) => {
                return Err(e);
            },
        }
        let mut verified: Vec<BlockHeader> = Vec::new();
        let mut i: usize = 0;
        while i < n
            invariant
                n <= headers@.len(),
                i <= n,
                verified@ == headers@.take(i as int),
            decreases n - i,
        {
            verified.push(headers[i]);
            i = i + 1;
            assert(verified@ =~= headers@.take(i as int));
        }
        Ok(verified)
    }

    /// Stores the first `n` headers of a batch in order, as `update_block_header` does,
    /// stopping with its error at the first that does not connect.
    fn store_run(&mut self, headers: &Vec<BlockHeader>, n: usize) -> (r: Result<(), ConsensusError>)
        requires
            n <= headers@.len(),
        ensures
            ({
                let m = first_refused(client_state(*old(self)), headers@, 0, n as int);
                &&& (r is Ok <==> m == n)
                &&& r is Err ==> (r matches Err(ConsensusError::TrieError(e)) && e@ == "Block header doesn't connect to chain"@)
                &&& client_state(*final(self)) == state_after(client_state(*old(self)), headers@, m)
            }),
            final(self).proofs() == old(self).proofs(),
            final(self).strategy() == old(self).strategy(),
            final(self).caching() == old(self).caching(),
            final(self).trusted_count() == old(self).trusted_count(),
    {
        let ghost s0 = client_state(*self);
        proof {
            lemma_state_after_step(s0, headers@, 0);
            lemma_first_refused_step(s0, headers@, n as int, n as int);
        }
        let mut i: usize = 0;
        while i < n
            invariant
                n <= headers@.len(),
                i <= n,
                s0 == client_state(*old(self)),
                first_refused(s0, headers@, n as int, n as int) == n,
                first_refused(s0, headers@, i as int, n as int) == first_refused(s0, headers@, 0, n as int),
                client_state(*self) == state_after(s0, headers@, i as int),
                self.proofs() == old(self).proofs(),
                self.strategy() == old(self).strategy(),
                self.caching() == old(self).caching(),
                self.trusted_count() == old(self).trusted_count(),
            decreases n - i,
        {
            let header = headers[i];
            let ghost before = state_after(s0, headers@, i as int);
            proof {
                lemma_first_refused_step(s0, headers@, i as int, n as int);
                lemma_state_after_step(s0, headers@, i as int);
            }
            match self.update_block_header(header) {
                Ok(()) => {},
                Err(e) => {
                    return Err(e);
                },
            }
            assert(self.headers() == before.0.insert(spec_header_hash(header), header));
            assert(self.roots() == before.1.insert(header.height, header.state_root));
            i = i + 1;
        }
        Ok(())
    }
}

/// What a light client holds of the chain: its headers by hash, its state roots by
/// height, its best height and its best hash.
pub open spec fn client_state(c: LightClient) -> (Map<[u8; 32], BlockHeader>, Map<u64, [u8; 32]>, u64, [u8; 32]) {
    (c.headers(), c.roots(), c.best_height(), c.best_hash())
}

/// What storing a header that connects does to what a client holds, as
/// `update_block_header` states.
pub open spec fn header_stored(
    s: (Map<[u8; 32], BlockHeader>, Map<u64, [u8; 32]>, u64, [u8; 32]),
    h: BlockHeader,
) -> (Map<[u8; 32], BlockHeader>, Map<u64, [u8; 32]>, u64, [u8; 32]) {
    let higher = h.height > s.2;
    (
        s.0.insert(spec_header_hash(h), h),
        s.1.insert(h.height, h.state_root),
        if higher { h.height } else { s.2 },
        if higher { spec_header_hash(h) } else { s.3 },
    )
}

/// What a client holds after storing the first `k` headers of a batch, from `s0`.
#[verifier::opaque]
pub open spec fn state_after(
    s0: (Map<[u8; 32], BlockHeader>, Map<u64, [u8; 32]>, u64, [u8; 32]),
    headers: Seq<BlockHeader>,
    k: int,
) -> (Map<[u8; 32], BlockHeader>, Map<u64, [u8; 32]>, u64, [u8; 32])
    decreases k,
{
    if k <= 0 {
        s0
    } else {
        header_stored(state_after(s0, headers, k - 1), headers[k - 1])
    }
}

/// Where the run of headers that continue the batch ends, looking from `i`: the first
/// header from `i` on that does not continue it, or the batch's length.
#[verifier::opaque]
pub open spec fn run_end(start: [u8; 32], headers: Seq<BlockHeader>, i: int) -> int
    decreases headers.len() - i,
{
    if i < 0 || i >= headers.len() || !chain_step(start, headers, i) {
        i
    } else {
        run_end(start, headers, i + 1)
    }
}

/// The first header from `k` on, before `n`, that does not connect to what the client
/// holds after the headers before it; `n` when every one connects.
#[verifier::opaque]
pub open spec fn first_refused(
    s0: (Map<[u8; 32], BlockHeader>, Map<u64, [u8; 32]>, u64, [u8; 32]),
    headers: Seq<BlockHeader>,
    k: int,
    n: int,
) -> int
    decreases n - k,
{
    if k < 0 || k >= n {
        n
    } else if !header_connects(headers[k], state_after(s0, headers, k).3) {
        k
    } else {
        first_refused(s0, headers, k + 1, n)
    }
}

proof fn lemma_state_after_step(
    s0: (Map<[u8; 32], BlockHeader>, Map<u64, [u8; 32]>, u64, [u8; 32]),
    headers: Seq<BlockHeader>,
    k: int,
)
    requires
        k >= 0,
    ensures
        state_after(s0, headers, 0) == s0,
        state_after(s0, headers, k + 1) == header_stored(state_after(s0, headers, k), headers[k]),
{
    reveal(state_after);
}

/// The length of the run of headers that continue the batch, as `run_end` states.
fn run_length(start: [u8; 32], headers: &Vec<BlockHeader>) -> (n: usize)
    ensures
        n == run_end(start, headers@, 0),
        n <= headers@.len(),
        accepted_run(start, headers@, n as int),
        n < headers@.len() ==> !chain_step(start, headers@, n as int),
{
    let mut expected = start;
    let mut i: usize = 0;
    let ghost len = headers@.len() as int;
    let ghost n = run_end(start, headers@, 0);
    proof {
        lemma_run_end_step(start, headers@, len);
    }
    while i < headers.len()
        invariant_except_break
            i <= headers@.len(),
            len == headers@.len(),
            expected == expected_before(start, headers@, i as int),
            run_end(start, headers@, i as int) == n,
            run_end(start, headers@, len) == len,
            accepted_run(start, headers@, i as int),
        ensures
            i <= headers@.len(),
            i == n,
            accepted_run(start, headers@, i as int),
            i < headers@.len() ==> !chain_step(start, headers@, i as int),
        decreases headers@.len() - i,
    {
        let header = headers[i];
        if !hash_eq(&header.previous_block_hash, &expected) && !hash_is_zero(&expected) {
            proof {
                assert(!chain_step(start, headers@, i as int));
                lemma_run_end_step(start, headers@, i as int);
            }
            break;
        }
        proof {
            assert(chain_step(start, headers@, i as int));
            lemma_run_end_step(start, headers@, i as int);
        }
        expected = header.hash();
        i = i + 1;
    }
    i
}

proof fn lemma_run_end_step(start: [u8; 32], headers: Seq<BlockHeader>, i: int)
    requires
        i >= 0,
    ensures
        (i >= headers.len() || !chain_step(start, headers, i)) ==> run_end(start, headers, i) == i,
        (i < headers.len() && chain_step(start, headers, i)) ==> run_end(start, headers, i) == run_end(start, headers, i + 1),
{
    reveal(run_end);
}

proof fn lemma_first_refused_step(
    s0: (Map<[u8; 32], BlockHeader>, Map<u64, [u8; 32]>, u64, [u8; 32]),
    headers: Seq<BlockHeader>,
    k: int,
    n: int,
)
    requires
        k >= 0,
    ensures
        k >= n ==> first_refused(s0, headers, k, n) == n,
        k < n && !header_connects(headers[k], state_after(s0, headers, k).3) ==> first_refused(s0, headers, k, n) == k,
        k < n && header_connects(headers[k], state_after(s0, headers, k).3)
            ==> first_refused(s0, headers, k, n) == first_refused(s0, headers, k + 1, n),
{
    reveal(first_refused);
}

proof fn lemma_first_refused(
    s0: (Map<[u8; 32], BlockHeader>, Map<u64, [u8; 32]>, u64, [u8; 32]),
    headers: Seq<BlockHeader>,
    k: int,
    n: int,
)
    requires
        0 <= k <= n,
    ensures
        k <= first_refused(s0, headers, k, n) <= n,
        first_refused(s0, headers, k, n) == n <==> forall|j: int|
            k <= j < n ==> #[trigger] header_connects(headers[j], state_after(s0, headers, j).3),
    decreases n - k,
{
    lemma_first_refused_step(s0, headers, k, n);
    if k < n {
        lemma_first_refused(s0, headers, k + 1, n);
        if header_connects(headers[k], state_after(s0, headers, k).3) {
            assert forall|j: int| k <= j < n && (forall|i: int|
                k + 1 <= i < n ==> #[trigger] header_connects(headers[i], state_after(s0, headers, i).3))
                implies #[trigger] header_connects(headers[j], state_after(s0, headers, j).3) by {
                if j > k {
                    assert(header_connects(headers[j], state_after(s0, headers, j).3));
                }
            }
        }
    }
}

/// The hash the `i`-th header of a batch must name: `start` for the first, else the hash
/// of the header before it.
pub open spec fn expected_before(start: [u8; 32], headers: Seq<BlockHeader>, i: int) -> [u8; 32] {
    if i <= 0 { start } else { spec_header_hash(headers[i - 1]) }
}

/// Whether the `i`-th header of a batch continues the batch: it names the hash it must,
/// or that hash is zero.
pub open spec fn chain_step(start: [u8; 32], headers: Seq<BlockHeader>, i: int) -> bool {
    headers[i].previous_block_hash == expected_before(start, headers, i) || is_zero_hash(expected_before(start, headers, i))
}

/// Whether each of the first `n` headers of a batch continues it.
pub open spec fn accepted_run(start: [u8; 32], headers: Seq<BlockHeader>, n: int) -> bool {
    forall|i: int| 0 <= i < n ==> #[trigger] chain_step(start, headers, i)
}

/// The total size of the first `n` cached proofs.
pub open spec fn proof_total(s: Seq<([u8; 32], usize)>, n: int) -> nat
    decreases n,
{
    if n <= 0 {
        0
    } else {
        proof_total(s, n - 1) + s[n - 1].1 as nat
    }
}

pub proof fn lemma_proof_total_prefix(s: Seq<([u8; 32], usize)>, k: int, n: int)
    requires
        0 <= k <= n,
    ensures
        proof_total(s, k) <= proof_total(s, n),
    decreases n - k,
{
    if k < n {
        lemma_proof_total_prefix(s, k, n - 1);
    }
}

} // verus!
