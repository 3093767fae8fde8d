//! Proof of work: compact targets, difficulty retargeting and the OxideHash
//! memory-hard block hash.
use vstd::prelude::*;
use crate::bytes::{copy_range, extend_bytes, le_value, push_u32_le, push_u64_le, u32_le, u64_le};
use crate::crypto::{blake3_digest, blake3_hash};
use crate::encoding::spec_header_hash;
use crate::script::engine::le_value_u64;
use crate::types::BlockHeader;
use crate::uint::{U256, u256_value, u256_from_u64, u256_from_little_endian, u256_mul, u256_div, u256_shl, u256_gt, u256_modulus, lemma_u256_bound};

verus! {

/// The easiest target a block may have: 0xFFFF0000.
pub open spec fn max_target_value() -> nat {
    0xFFFF_0000
}

/// The easiest target a block may have, as a 256-bit integer.
pub fn max_target() -> (r: U256)
    ensures
        u256_value(r) == max_target_value(),
{
    u256_from_u64(0xFFFF_0000)
}

/// The block time the retarget aims for, in seconds.
pub const TARGET_BLOCK_TIME_SECS: u64 = 150;

/// How many blocks a retarget covers.
pub const DIFFICULTY_ADJUSTMENT_INTERVAL: u32 = 2016;

/// The time a retarget interval should take: 2016 blocks of 150 s.
pub open spec fn expected_interval_time() -> nat {
    302_400
}

/// The target after an interval that took `actual` seconds: four times easier when it
/// took over four times as long, four times harder when it took under a quarter,
/// scaled by the ratio in between, never easier than the easiest target.
pub open spec fn next_target(actual: nat, current: nat) -> nat {
    let expected = expected_interval_time();
    let t = if actual > expected * 4 {
        current * 4
    } else if actual > expected {
        current * actual / expected
    } else if actual < expected / 4 {
        current / 4
    } else if actual < expected {
        current * actual / expected
    } else {
        current
    };
    if t > max_target_value() { max_target_value() } else { t }
}

/// Whether the products the retarget computes stay within 256 bits.
pub open spec fn retarget_fits(actual: nat, current: nat) -> bool {
    let expected = expected_interval_time();
    if actual > expected * 4 {
        current * 4 < u256_modulus()
    } else if actual > expected || (actual >= expected / 4 && actual < expected) {
        current * actual < u256_modulus()
    } else {
        true
    }
}

/// The target for the next interval, as `next_target` states, for an interval that
/// started at `first_block_time` and ended at `last_block_time`.
pub fn calculate_next_difficulty(last_block_time: u64, first_block_time: u64, current_target: U256) -> (r: U256)
    requires
        first_block_time <= last_block_time,
        retarget_fits((last_block_time - first_block_time) as nat, u256_value(current_target)),
    ensures
        u256_value(r) == next_target((last_block_time - first_block_time) as nat, u256_value(current_target)),
{
    let actual_time_taken = last_block_time - first_block_time;
    let expected_time_taken: u64 = TARGET_BLOCK_TIME_SECS * DIFFICULTY_ADJUSTMENT_INTERVAL as u64;
    let mut new_target = current_target;
    if actual_time_taken > expected_time_taken * 4 {
        new_target = u256_mul(new_target, u256_from_u64(4));
    } else if actual_time_taken > expected_time_taken {
        new_target = u256_div(u256_mul(new_target, u256_from_u64(actual_time_taken)), u256_from_u64(expected_time_taken));
    } else if actual_time_taken < expected_time_taken / 4 {
        new_target = u256_div(new_target, u256_from_u64(4));
    } else if actual_time_taken < expected_time_taken {
        new_target = u256_div(u256_mul(new_target, u256_from_u64(actual_time_taken)), u256_from_u64(expected_time_taken));
    }
    let max_target_u256 = max_target();
    if u256_gt(new_target, max_target_u256) {
        return max_target_u256;
    }
    new_target
}

/// A retarget never makes the target easier than the easiest target, nor more than four
/// times easier; from a target within the easiest, it never makes it more than four times
/// harder.
pub proof fn law_retarget_bounded(actual: nat, current: nat)
    ensures
        next_target(actual, current) <= max_target_value(),
        next_target(actual, current) <= current * 4,
        current <= max_target_value() ==> next_target(actual, current) >= current / 4,
{
    let expected = expected_interval_time();
    if actual > expected && actual <= expected * 4 {
        assert(current * actual / expected <= current * 4) by (nonlinear_arith)
            requires actual <= expected * 4, expected > 0;
        assert(current * actual / expected >= current) by (nonlinear_arith)
            requires actual > expected, expected > 0;
    } else if actual >= expected / 4 && actual < expected {
        assert(current * actual / expected <= current) by (nonlinear_arith)
            requires actual < expected, expected > 0;
        assert(current * actual / expected >= current / 4) by (nonlinear_arith)
            requires actual >= expected / 4, expected == 302_400;
    }
}

/// The target a compact difficulty encodes: an exponent byte and a 24-bit mantissa; the
/// mantissa shifted right by whole bytes for an exponent up to 3, else left (dropping
/// bits beyond 256).
pub open spec fn compact_target(compact: u32) -> nat {
    let e = compact as int / 0x100_0000;
    let m = compact as int % 0x100_0000;
    if e == 0 {
        (m / 0x100_0000) as nat
    } else if e == 1 {
        (m / 0x1_0000) as nat
    } else if e == 2 {
        (m / 0x100) as nat
    } else if e == 3 {
        m as nat
    } else {
        ((m * vstd::arithmetic::power2::pow2((8 * (e - 3)) as nat)) % u256_modulus() as int) as nat
    }
}

/// The target a compact difficulty encodes, as `compact_target` states.
pub fn calculate_target(compact_target_bits: u32) -> (r: U256)
    ensures
        u256_value(r) == compact_target(compact_target_bits),
{
    let exponent = (compact_target_bits >> 24) & 0xff;
    let mantissa = compact_target_bits & 0x00ffffff;
    assert(exponent == compact_target_bits / 0x100_0000) by (bit_vector)
        requires
            exponent == (compact_target_bits >> 24) & 0xff,
    ;
    assert(mantissa == compact_target_bits % 0x100_0000) by (bit_vector)
        requires
            mantissa == compact_target_bits & 0x00ffffff,
    ;
    if exponent <= 3 {
        let v = mantissa >> (8 * (3 - exponent));
        proof {
            if exponent == 0 {
                assert(mantissa >> 24u32 == mantissa / 0x100_0000) by (bit_vector);
            } else if exponent == 1 {
                assert(mantissa >> 16u32 == mantissa / 0x1_0000) by (bit_vector);
            } else if exponent == 2 {
                assert(mantissa >> 8u32 == mantissa / 0x100) by (bit_vector);
            } else {
                assert(mantissa >> 0u32 == mantissa) by (bit_vector);
            }
        }
        u256_from_u64(v as u64)
    } else {
        u256_shl(u256_from_u64(mantissa as u64), 8 * (exponent - 3))
    }
}

/// The smaller of `a` clamped below by `lo`, and `hi`.
pub open spec fn clamp_timespan(a: nat, lo: nat, hi: nat) -> nat {
    let m = if a > lo { a } else { lo };
    if m < hi { m } else { hi }
}

/// The target after a timespan, scaled by the timespan (held within a quarter and four
/// times the target timespan) over the target timespan, never easier than `max_target`.
pub open spec fn new_target(current: nat, actual: nat, target_timespan: nat, max: nat) -> nat {
    let t = current * clamp_timespan(actual, target_timespan / 4, target_timespan * 4) / target_timespan;
    if t > max { max } else { t }
}

/// The target after a timespan, as `new_target` states.
pub fn calculate_new_target(
    current_target: U256,
    actual_timespan: u64,
    target_timespan: u64,
    _adjustment_window: u64,
    _max_timespan: u64,
    max_target: U256,
) -> (r: U256)
    requires
        target_timespan > 0,
        target_timespan * 4 <= u64::MAX,
        u256_value(current_target) * clamp_timespan(actual_timespan as nat, target_timespan as nat / 4, target_timespan as nat * 4)
            < u256_modulus(),
    ensures
        u256_value(r) == new_target(u256_value(current_target), actual_timespan as nat, target_timespan as nat, u256_value(max_target)),
{
    let lower = target_timespan / 4;
    let upper = target_timespan * 4;
    let raised = if actual_timespan > lower { actual_timespan } else { lower };
    let clamped_timespan = if raised < upper { raised } else { upper };
    let mut new_target = u256_div(u256_mul(current_target, u256_from_u64(clamped_timespan)), u256_from_u64(target_timespan));
    if u256_gt(new_target, max_target) {
        new_target = max_target;
    }
    new_target
}

/// The bytes of the OxideHash scratchpad: 1 GiB.
pub const SCRATCHPAD_SIZE: usize = 1_073_741_824;

/// The read-mix-write rounds of OxideHash.
pub const ITERATIONS_PER_HASH: usize = 1_048_576;

/// A byte string with the 32 bytes at `at` replaced by `h`.
pub open spec fn write32(pad: Seq<u8>, at: int, h: [u8; 32]) -> Seq<u8> {
    pad.take(at) + h@ + pad.skip(at + 32)
}

/// The scratchpad after its first `k` chunks of 32 bytes are filled, with the seed the
/// next chunk is hashed from: each chunk is the BLAKE3 digest of the previous seed
/// followed by the chunk's byte offset (eight bytes, little-endian), and becomes the seed.
pub open spec fn filled_scratchpad(seed: [u8; 32], k: nat) -> (Seq<u8>, [u8; 32])
    decreases k,
{
    if k == 0 {
        (Seq::new(SCRATCHPAD_SIZE as nat, |i: int| 0u8), seed)
    } else {
        let prev = filled_scratchpad(seed, (k - 1) as nat);
        let at = 32 * (k - 1);
        let h = blake3_digest(prev.1@ + u64_le(at as u64));
        (write32(prev.0, at, h), h)
    }
}

/// The place a digest picks in the scratchpad: its first eight bytes, little-endian,
/// modulo the scratchpad size less 32.
pub open spec fn pad_address(d: [u8; 32]) -> int {
    (le_value(d@.subrange(0, 8)) % ((SCRATCHPAD_SIZE - 32) as nat)) as int
}

/// One round of OxideHash: read 32 bytes at an address drawn from the state and the round
/// number, hash them XORed with the state into the new state, and write the new state at
/// an address drawn from it and the round number with its bits flipped.
pub open spec fn mix_round(pad: Seq<u8>, state: [u8; 32], j: nat) -> (Seq<u8>, [u8; 32]) {
    let read_at = pad_address(blake3_digest(state@ + u64_le(j as u64)));
    let mixed = Seq::new(32, |k: int| state@[k] ^ pad[read_at + k]);
    let next = blake3_digest(mixed);
    let write_at = pad_address(blake3_digest(next@ + u32_le((j as u32) ^ 0xFFFF_FFFFu32)));
    (write32(pad, write_at, next), next)
}

/// The scratchpad and state after the first `n` rounds.
pub open spec fn mixed_scratchpad(pad: Seq<u8>, state: [u8; 32], n: nat) -> (Seq<u8>, [u8; 32])
    decreases n,
{
    if n == 0 {
        (pad, state)
    } else {
        let prev = mixed_scratchpad(pad, state, (n - 1) as nat);
        mix_round(prev.0, prev.1, (n - 1) as nat)
    }
}

/// The OxideHash of a header: from the header's hash as seed, fill the scratchpad, run
/// the rounds, then hash the scratchpad's first 32 bytes, the final state and its last 32
/// bytes.
pub open spec fn oxide_hash(h: BlockHeader) -> [u8; 32] {
    let seed = spec_header_hash(h);
    let pad = filled_scratchpad(seed, (SCRATCHPAD_SIZE / 32) as nat).0;
    let end = mixed_scratchpad(pad, seed, ITERATIONS_PER_HASH as nat);
    blake3_digest(end.0.subrange(0, 32) + end.1@ + end.0.subrange(SCRATCHPAD_SIZE - 32, SCRATCHPAD_SIZE as int))
}

proof fn lemma_write32_len(pad: Seq<u8>, at: int, h: [u8; 32])
    requires
        0 <= at,
        at + 32 <= pad.len(),
    ensures
        write32(pad, at, h).len() == pad.len(),
{
}

proof fn lemma_filled_len(seed: [u8; 32], k: nat)
    requires
        k <= SCRATCHPAD_SIZE / 32,
    ensures
        filled_scratchpad(seed, k).0.len() == SCRATCHPAD_SIZE,
    decreases k,
{
    if k > 0 {
        lemma_filled_len(seed, (k - 1) as nat);
        let prev = filled_scratchpad(seed, (k - 1) as nat);
        let at = 32 * (k - 1);
        let h = blake3_digest(prev.1@ + u64_le(at as u64));
        lemma_write32_len(prev.0, at, h);
    }
}

proof fn lemma_mixed_len(pad: Seq<u8>, state: [u8; 32], n: nat)
    requires
        pad.len() == SCRATCHPAD_SIZE,
    ensures
        mixed_scratchpad(pad, state, n).0.len() == SCRATCHPAD_SIZE,
    decreases n,
{
    if n > 0 {
        lemma_mixed_len(pad, state, (n - 1) as nat);
        let prev = mixed_scratchpad(pad, state, (n - 1) as nat);
        let j = (n - 1) as nat;
        let read_at = pad_address(blake3_digest(prev.1@ + u64_le(j as u64)));
        let mixed = Seq::new(32, |k: int| prev.1@[k] ^ prev.0[read_at + k]);
        let next = blake3_digest(mixed);
        let d = blake3_digest(next@ + u32_le((j as u32) ^ 0xFFFF_FFFFu32));
        let write_at = pad_address(d);
        assert(0 <= write_at < SCRATCHPAD_SIZE - 32) by {
            let v = le_value(d@.subrange(0, 8));
            assert(v % ((SCRATCHPAD_SIZE - 32) as nat) < (SCRATCHPAD_SIZE - 32) as nat);
        }
        lemma_write32_len(prev.0, write_at, next);
    }
}

/// The OxideHash of a header is the BLAKE3 digest of 96 bytes: the first 32 bytes of the
/// scratchpad after the rounds, then the final state, then the scratchpad's last 32 bytes.
pub proof fn law_oxide_hash_preimage(h: BlockHeader, pre: Seq<u8>)
    requires
        ({
            let seed = spec_header_hash(h);
            let end = mixed_scratchpad(filled_scratchpad(seed, (SCRATCHPAD_SIZE / 32) as nat).0, seed,
                ITERATIONS_PER_HASH as nat);
            &&& pre.len() == 96
            &&& pre.subrange(0, 32) == end.0.subrange(0, 32)
            &&& pre.subrange(32, 64) == end.1@
            &&& pre.subrange(64, 96) == end.0.subrange(SCRATCHPAD_SIZE - 32, SCRATCHPAD_SIZE as int)
        }),
    ensures
        oxide_hash(h) == blake3_digest(pre),
{
    let seed = spec_header_hash(h);
    let pad = filled_scratchpad(seed, (SCRATCHPAD_SIZE / 32) as nat).0;
    lemma_filled_len(seed, (SCRATCHPAD_SIZE / 32) as nat);
    lemma_mixed_len(pad, seed, ITERATIONS_PER_HASH as nat);
    let end = mixed_scratchpad(pad, seed, ITERATIONS_PER_HASH as nat);
    let whole = end.0.subrange(0, 32) + end.1@ + end.0.subrange(SCRATCHPAD_SIZE - 32, SCRATCHPAD_SIZE as int);
    assert forall|i: int| 0 <= i < 96 implies whole[i] == pre[i] by {
        if i < 32 {
            assert(pre.subrange(0, 32)[i] == pre[i]);
        } else if i < 64 {
            assert(pre.subrange(32, 64)[i - 32] == pre[i]);
        } else {
            assert(pre.subrange(64, 96)[i - 64] == pre[i]);
        }
    }
    assert(whole =~= pre);
}

/// Writes 32 bytes into the scratchpad at `at`.
fn write_chunk(pad: &mut Vec<u8>, at: usize, h: &[u8; 32])
    requires
        at + 32 <= old(pad)@.len(),
    ensures
        final(pad)@ == write32(old(pad)@, at as int, *h),
{
    let n = pad.len();
    let mut k: usize = 0;
    while k < 32
        invariant
            k <= 32,
            n == pad@.len(),
            at + 32 <= pad@.len(),
            pad@.len() == old(pad)@.len(),
            pad@ =~= old(pad)@.take(at as int) + h@.take(k as int) + old(pad)@.skip(at + k),
        decreases 32 - k,
    {
        pad.set(at + k, h[k]);
        k = k + 1;
        assert(pad@ =~= old(pad)@.take(at as int) + h@.take(k as int) + old(pad)@.skip(at + k));
    }
    assert(h@.take(32) =~= h@);
}

/// The address a digest picks, as `pad_address` states.
fn address_of(d: &[u8; 32]) -> (r: usize)
    ensures
        r == pad_address(*d),
        r + 32 <= SCRATCHPAD_SIZE,
{
    let first = copy_range(d.as_slice(), 0, 8);
    let v = le_value_u64(first.as_slice());
    (v % ((SCRATCHPAD_SIZE - 32) as u64)) as usize
}

/// The OxideHash of a header, as `oxide_hash` states.
pub fn calculate_hash(header: &BlockHeader) -> (r: [u8; 32])
    ensures
        r == oxide_hash(*header),
{
    let initial_seed = header.hash();
    let mut scratchpad: Vec<u8> = vec![0u8; SCRATCHPAD_SIZE];
    assert(scratchpad@ =~= Seq::new(SCRATCHPAD_SIZE as nat, |i: int| 0u8)) by {
        assert forall|i: int| 0 <= i < SCRATCHPAD_SIZE implies scratchpad@[i] == 0u8 by {
            assert(vstd::pervasive::cloned(0u8, scratchpad@[i]));
        }
    }
    let mut current_seed = initial_seed;
    let mut chunk: usize = 0;
    while chunk < SCRATCHPAD_SIZE / 32
        invariant
            chunk <= SCRATCHPAD_SIZE / 32,
            scratchpad@ == filled_scratchpad(initial_seed, chunk as nat).0,
            current_seed == filled_scratchpad(initial_seed, chunk as nat).1,
            scratchpad@.len() == SCRATCHPAD_SIZE,
        decreases SCRATCHPAD_SIZE / 32 - chunk,
    {
        let at = chunk * 32;
        let mut buf: Vec<u8> = Vec::new();
        extend_bytes(&mut buf, current_seed.as_slice());
        push_u64_le(&mut buf, at as u64);
        let h = blake3_hash(buf.as_slice());
        write_chunk(&mut scratchpad, at, &h);
        current_seed = h;
        chunk = chunk + 1;
    }
    let ghost pad0 = scratchpad@;
    let mut state = initial_seed;
    let mut j: usize = 0;
    while j < ITERATIONS_PER_HASH
        invariant
            j <= ITERATIONS_PER_HASH,
            scratchpad@.len() == SCRATCHPAD_SIZE,
            (scratchpad@, state) == mixed_scratchpad(pad0, initial_seed, j as nat),
        decreases ITERATIONS_PER_HASH - j,
    {
        let mut buf: Vec<u8> = Vec::new();
        extend_bytes(&mut buf, state.as_slice());
        push_u64_le(&mut buf, j as u64);
        let read_seed = blake3_hash(buf.as_slice());
        let read_at = address_of(&read_seed);
        let mut mixed: Vec<u8> = Vec::new();
        let mut k: usize = 0;
        while k < 32
            invariant
                k <= 32,
                read_at + 32 <= scratchpad@.len(),
                read_at + 32 <= SCRATCHPAD_SIZE,
                mixed@ == Seq::new(k as nat, |q: int| state@[q] ^ scratchpad@[read_at + q]),
            decreases 32 - k,
        {
            mixed.push(state[k] ^ scratchpad[read_at + k]);
            k = k + 1;
            assert(mixed@ =~= Seq::new(k as nat, |q: int| state@[q] ^ scratchpad@[read_at + q]));
        }
        let next = blake3_hash(mixed.as_slice());
        let mut wbuf: Vec<u8> = Vec::new();
        extend_bytes(&mut wbuf, next.as_slice());
        push_u32_le(&mut wbuf, (j as u32) ^ 0xFFFF_FFFFu32);
        let write_seed = blake3_hash(wbuf.as_slice());
        let write_at = address_of(&write_seed);
        write_chunk(&mut scratchpad, write_at, &next);
        state = next;
        j = j + 1;
    }
    let mut fin: Vec<u8> = Vec::new();
    let head = copy_range(scratchpad.as_slice(), 0, 32);
    extend_bytes(&mut fin, head.as_slice());
    extend_bytes(&mut fin, state.as_slice());
    let tail = copy_range(scratchpad.as_slice(), SCRATCHPAD_SIZE - 32, SCRATCHPAD_SIZE);
    extend_bytes(&mut fin, tail.as_slice());
    blake3_hash(fin.as_slice())
}

/// Whether a header's OxideHash, read as a little-endian number, is at most the target.
pub fn verify_pow(header: &BlockHeader, difficulty_target: U256) -> (r: bool)
    ensures
        r == (le_value(oxide_hash(*header)@) <= u256_value(difficulty_target)),
{
    let hash = calculate_hash(header);
    let hash_u256 = u256_from_little_endian(&hash);
    !u256_gt(hash_u256, difficulty_target)
}

} // verus!
