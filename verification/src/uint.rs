//! 256-bit unsigned integers, as four 64-bit limbs with the least significant first.
//! The arithmetic is `primitive_types::U256`'s; what the library knows of it is stated
//! here.
use vstd::prelude::*;
use crate::bytes::le_value;

verus! {

/// A 256-bit unsigned integer: four 64-bit limbs, least significant first.
#[derive(Debug, Clone, Copy, PartialEq, Eq)]
pub struct U256(pub [u64; 4]);

/// 2 to the 64th.
pub open spec fn limb_base() -> nat {
    0x1_0000_0000_0000_0000
}

/// 2 to the 256th: one more than the largest 256-bit integer.
pub open spec fn u256_modulus() -> nat {
    limb_base() * limb_base() * limb_base() * limb_base()
}

/// The number a 256-bit integer denotes.
pub open spec fn u256_value(x: U256) -> nat {
    x.0@[0] as nat + limb_base() * (x.0@[1] as nat + limb_base() * (x.0@[2] as nat + limb_base() * (x.0@[3] as nat)))
}

/// Every 256-bit integer is below 2 to the 256th.
pub proof fn lemma_u256_bound(x: U256)
    ensures
        u256_value(x) < u256_modulus(),
{
    let b = limb_base();
    let (l0, l1, l2, l3) = (x.0@[0] as nat, x.0@[1] as nat, x.0@[2] as nat, x.0@[3] as nat);
    assert(l3 + 1 <= b);
    assert(l2 + b * l3 < b * b) by (nonlinear_arith)
        requires l2 < b, l3 < b, b > 0;
    assert(l1 + b * (l2 + b * l3) < b * b * b) by (nonlinear_arith)
        requires l1 < b, l2 + b * l3 < b * b, b > 0;
    assert(l0 + b * (l1 + b * (l2 + b * l3)) < b * b * b * b) by (nonlinear_arith)
        requires l0 < b, l1 + b * (l2 + b * l3) < b * b * b, b > 0;
}

/// The 256-bit integer with the value of a `u64`.
pub fn u256_from_u64(x: u64) -> (r: U256)
    ensures
        u256_value(r) == x,
{
    let r = U256([x, 0, 0, 0]);
    assert(r.0@[0] == x && r.0@[1] == 0 && r.0@[2] == 0 && r.0@[3] == 0);
    r
}

/// `primitive_types::U256` multiplication (`*`), which panics on overflow: claimed to give
/// the product when it is below 2 to the 256th.
#[verifier::external_body]
pub(crate) fn u256_mul(a: U256, b: U256) -> (r: U256)
    requires
        u256_value(a) * u256_value(b) < u256_modulus(),
    ensures
        u256_value(r) == u256_value(a) * u256_value(b),
{
    U256((primitive_types::U256(a.0) * primitive_types::U256(b.0)).0)
}

/// `primitive_types::U256` division (`/`), which panics on a zero divisor: claimed to give
/// the quotient rounded down.
#[verifier::external_body]
pub(crate) fn u256_div(a: U256, b: U256) -> (r: U256)
    requires
        u256_value(b) > 0,
    ensures
        u256_value(r) == u256_value(a) / u256_value(b),
{
    U256((primitive_types::U256(a.0) / primitive_types::U256(b.0)).0)
}

/// `primitive_types::U256` left shift (`<<`): claimed, as the source shows, to multiply by
/// 2 to the shift and drop the bits beyond 256 (every bit for a shift of 256 or more).
#[verifier::external_body]
pub(crate) fn u256_shl(a: U256, shift: u32) -> (r: U256)
    ensures
        u256_value(r) == (u256_value(a) * vstd::arithmetic::power2::pow2(shift as nat)) % u256_modulus(),
{
    U256((primitive_types::U256(a.0) << shift).0)
}

/// `primitive_types::U256` comparison (`>`): claimed to compare the numbers.
#[verifier::external_body]
pub(crate) fn u256_gt(a: U256, b: U256) -> (r: bool)
    ensures
        r == (u256_value(a) > u256_value(b)),
{
    primitive_types::U256(a.0) > primitive_types::U256(b.0)
}

/// `primitive_types::U256::from_little_endian` on 32 bytes: claimed to read them as a
/// little-endian number.
#[verifier::external_body]
pub(crate) fn u256_from_little_endian(bytes: &[u8; 32]) -> (r: U256)
    ensures
        u256_value(r) == le_value(bytes@),
{
    U256(primitive_types::U256::from_little_endian(bytes).0)
}

} // verus!
