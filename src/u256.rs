//! 256-bit unsigned integers as four little-endian `u64` limbs.
//!
//! The arithmetic itself is done by `primitive_types::U256`, whose value is
//! the same four limbs; the functions here state what each operation does to
//! the integer that the limbs denote.

use crate::block::le_bytes_value;
use primitive_types::U256;
use vstd::arithmetic::power::pow;
use vstd::prelude::*;

verus! {

/// 2^64, the radix of one limb.
pub open spec fn limb_radix() -> nat {
    0x1_0000_0000_0000_0000
}

/// 2^256, one past the largest value that four limbs can hold.
pub open spec fn u256_modulus() -> nat {
    limb_radix() * limb_radix() * limb_radix() * limb_radix()
}

/// The integer denoted by four little-endian limbs.
pub open spec fn limbs_value(l: [u64; 4]) -> nat {
    l[0] as nat + limb_radix() * (l[1] as nat + limb_radix() * (l[2] as nat + limb_radix()
        * (l[3] as nat)))
}

/// Three-way comparison of two integers.
pub open spec fn cmp_int(a: int, b: int) -> core::cmp::Ordering {
    if a < b {
        core::cmp::Ordering::Less
    } else if a == b {
        core::cmp::Ordering::Equal
    } else {
        core::cmp::Ordering::Greater
    }
}

/// The limbs of a value that fits in one limb.
pub fn limbs_from_u64(v: u64) -> (r: [u64; 4])
    ensures
        limbs_value(r) == v,
{
    [v, 0, 0, 0]
}

/// Relies on `Ord for U256`: it compares the integers that the limbs denote.
#[verifier::external_body]
pub(crate) fn u256_cmp(a: [u64; 4], b: [u64; 4]) -> (r: core::cmp::Ordering)
    ensures
        r == cmp_int(limbs_value(a) as int, limbs_value(b) as int),
{
    U256(a).cmp(&U256(b))
}

/// Relies on `Not for U256`: every bit is flipped, so the result is
/// `2^256 - 1 - a`.
#[verifier::external_body]
pub(crate) fn u256_not(a: [u64; 4]) -> (r: [u64; 4])
    ensures
        limbs_value(r) == u256_modulus() - 1 - limbs_value(a),
{
    (!U256(a)).0
}

/// Relies on `Add for U256`: the sum, which panics when it does not fit.
#[verifier::external_body]
pub(crate) fn u256_add(a: [u64; 4], b: [u64; 4]) -> (r: [u64; 4])
    requires
        limbs_value(a) + limbs_value(b) < u256_modulus(),
    ensures
        limbs_value(r) == limbs_value(a) + limbs_value(b),
{
    (U256(a) + U256(b)).0
}

/// Relies on `Mul for U256`: the product, which panics when it does not fit.
#[verifier::external_body]
pub(crate) fn u256_mul(a: [u64; 4], b: [u64; 4]) -> (r: [u64; 4])
    requires
        limbs_value(a) * limbs_value(b) < u256_modulus(),
    ensures
        limbs_value(r) == limbs_value(a) * limbs_value(b),
{
    (U256(a) * U256(b)).0
}

/// Relies on `Div for U256`: the quotient rounded down, which panics on a
/// zero divisor.
#[verifier::external_body]
pub(crate) fn u256_div(a: [u64; 4], b: [u64; 4]) -> (r: [u64; 4])
    requires
        limbs_value(b) > 0,
    ensures
        limbs_value(r) == limbs_value(a) / limbs_value(b),
{
    (U256(a) / U256(b)).0
}

/// Relies on `U256::pow`: exponentiation by squaring, whose intermediate
/// products never exceed the result, and which panics when that does not fit.
#[verifier::external_body]
pub(crate) fn u256_pow(base: [u64; 4], exp: [u64; 4]) -> (r: [u64; 4])
    requires
        pow(limbs_value(base) as int, limbs_value(exp)) < u256_modulus(),
    ensures
        limbs_value(r) == pow(limbs_value(base) as int, limbs_value(exp)),
{
    U256(base).pow(U256(exp)).0
}

/// Relies on `U256::from_little_endian`: the 32 bytes are read as one
/// little-endian integer.
#[verifier::external_body]
pub(crate) fn u256_from_le_bytes(bytes: &[u8; 32]) -> (r: [u64; 4])
    ensures
        limbs_value(r) == le_bytes_value(bytes@),
{
    U256::from_little_endian(&bytes[..]).0
}

/// Relies on `U256::as_u128`: the value itself, which panics when it does not
/// fit in 128 bits.
#[verifier::external_body]
pub(crate) fn u256_as_u128(a: [u64; 4]) -> (r: u128)
    requires
        limbs_value(a) <= u128::MAX,
    ensures
        r == limbs_value(a),
{
    U256(a).as_u128()
}

} // verus!
