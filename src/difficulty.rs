//! Block difficulty: compact and expanded thresholds, and block work.
//!
//! The target threshold is stored in the block header as a 32-bit
//! [`CompactDifficulty`]. A block hash must be less than or equal to the
//! [`ExpandedDifficulty`] threshold, both read as 256-bit little-endian
//! integers. The same threshold gives the [`Work`] of each block, which is
//! summed to find the chain with the greatest total work.

use crate::u256::{
    cmp_int, limb_radix, limbs_from_u64, limbs_value, u256_add, u256_as_u128, u256_cmp, u256_div,
    u256_from_le_bytes, u256_modulus, u256_mul, u256_not, u256_pow,
};
use vstd::arithmetic::div_mod::{lemma_div_nonincreasing, lemma_div_plus_one};
use vstd::arithmetic::power::{lemma_pow_adds, lemma_pow_increases, lemma_pow_positive, pow};
use vstd::prelude::*;

verus! {

/// The sign bit of the 24-bit signed mantissa.
const SIGN_BIT: u32 = 0x0080_0000;

/// The unsigned mantissa mask, also the largest unsigned mantissa.
const UNSIGNED_MANTISSA_MASK: u32 = 0x007F_FFFF;

/// The number of bits in the signed mantissa, below the exponent.
const PRECISION: u32 = 24;

/// The offset of the exponent.
const OFFSET: i32 = 3;

/// The radix of the exponent.
const BASE: u64 = 256;

/// A 32-bit "compact bits" value: the difficulty threshold of a block header.
///
/// This is a floating-point encoding with a 24-bit signed mantissa, an 8-bit
/// exponent, an offset of 3 and a radix of 256. Its bit pattern is kept as it
/// was read: several patterns denote the same threshold.
#[derive(Clone, Copy, Debug, PartialEq, Eq, Structural)]
pub struct CompactDifficulty(pub u32);

/// A 256-bit unsigned "expanded difficulty" value: the target threshold that
/// a block hash is compared with.
#[derive(Clone, Copy, Debug)]
pub struct ExpandedDifficulty([u64; 4]);

/// A 128-bit unsigned "work" value: the proof-of-work that one block, or a
/// chain of blocks, stands for.
///
/// Total chain work is not expected ever to reach 2^128.
#[derive(Clone, Copy, Debug, Default, PartialEq, Eq, Structural, PartialOrd, Ord)]
pub struct Work(pub u128);

impl CompactDifficulty {
    /// Bit 23, the sign of the mantissa.
    pub open spec fn sign_bit_set(self) -> bool {
        (self.0 / 0x80_0000) % 2 == 1
    }

    /// Bits 0 to 22, the magnitude of the mantissa.
    pub open spec fn mantissa(self) -> nat {
        (self.0 % 0x80_0000) as nat
    }

    /// Bits 24 to 31, less the offset.
    pub open spec fn exponent(self) -> int {
        self.0 / 0x100_0000 - 3
    }

    /// `mantissa * 256^exponent`, rounded down when the exponent is negative.
    pub open spec fn scaled_mantissa(self) -> nat {
        if self.exponent() < 0 {
            self.mantissa() / (pow(256, (-self.exponent()) as nat) as nat)
        } else {
            self.mantissa() * (pow(256, self.exponent() as nat) as nat)
        }
    }

    /// The threshold that this value encodes, or `None` where the encoding
    /// is negative, overflows 256 bits, or denotes zero.
    ///
    /// An exponent of 32 or more is an overflow whatever the mantissa; an
    /// exponent of 31 or 30 overflows only where the mantissa has bits that
    /// would land above bit 255.
    pub open spec fn expanded_value(self) -> Option<nat> {
        if self.sign_bit_set() {
            None
        } else if self.exponent() >= 32 {
            None
        } else if self.exponent() == 31 && self.mantissa() > 0xFF {
            None
        } else if self.exponent() == 30 && self.mantissa() > 0xFFFF {
            None
        } else if self.scaled_mantissa() == 0 {
            None
        } else {
            Some(self.scaled_mantissa())
        }
    }

    /// The work of a block with this threshold: `2^256 / (expanded + 1)`,
    /// or `None` where the threshold is invalid or the work does not fit in
    /// 128 bits.
    pub open spec fn work_value(self) -> Option<nat> {
        match self.expanded_value() {
            Some(e) => if u256_modulus() / (e + 1) <= u128::MAX {
                Some(u256_modulus() / (e + 1))
            } else {
                None
            },
            None => None,
        }
    }

    /// Calculate the `Work` for a compact representation.
    ///
    /// Returns `None` where the `ExpandedDifficulty` is `None`, and where the
    /// work overflows 128 bits, which cannot happen on a valid chain.
    pub fn to_work(&self) -> (r: Option<Work>)
        ensures
            r is Some <==> self.work_value() is Some,
            r matches Some(w) ==> w.0 == self.work_value()->0,
    {
        let expanded = match self.to_expanded() {
            Some(expanded) => expanded,
            None => return None,
        };
        let e = expanded.0;
        let one = limbs_from_u64(1);

        // 2^256 does not fit in 256 bits, but as `expanded + 1` is at most
        // 2^256, `2^256 / (expanded + 1)` is
        // `(2^256 - expanded - 1) / (expanded + 1) + 1`, and
        // `2^256 - expanded - 1` is the complement of `expanded`.
        let divisor = u256_add(e, one);
        let quotient = u256_div(u256_not(e), divisor);
        proof {
            let x = u256_modulus() - 1 - limbs_value(e);
            let d = limbs_value(e) + 1;
            lemma_div_plus_one(x as int, d as int);
            lemma_div_nonincreasing(x as int, d as int);
        }
        let result = u256_add(quotient, one);
        let max = [u64::MAX, u64::MAX, 0, 0];
        assert(limbs_value(max) == u128::MAX);
        match u256_cmp(result, max) {
            core::cmp::Ordering::Greater => None,
            _ => Some(Work(u256_as_u128(result))),
        }
    }

    /// Calculate the `ExpandedDifficulty` for a compact representation.
    ///
    /// Returns `None` for negative, zero and overflowing values.
    pub fn to_expanded(&self) -> (r: Option<ExpandedDifficulty>)
        ensures
            self.sign_bit_set() ==> r is None,
            self.exponent() >= 32 ==> r is None,
            self.scaled_mantissa() == 0 ==> r is None,
            r is Some <==> self.expanded_value() is Some,
            r is Some ==> r->0.value() == self.expanded_value()->0,
            r is Some ==> r->0.value() > 0,
            r is Some ==> r->0.value() + 1 < u256_modulus(),
    {
        let bits = self.0;
        proof {
            assert((bits & 0x80_0000u32 == 0x80_0000u32) == ((bits / 0x80_0000u32) % 2 == 1))
                by (bit_vector);
            assert(bits & 0x7F_FFFFu32 == bits % 0x80_0000u32) by (bit_vector);
            assert(bits >> 24u32 == bits / 0x100_0000u32) by (bit_vector);
        }
        if bits & SIGN_BIT == SIGN_BIT {
            return None;
        }
        let mantissa: u32 = bits & UNSIGNED_MANTISSA_MASK;
        let exponent: i32 = ((bits >> PRECISION) as i32) - OFFSET;
        assert(mantissa == self.mantissa() && exponent == self.exponent());

        // Normalise the mantissa and exponent before multiplying, so that
        // neither the power nor the product overflows.
        let (mantissa, exponent): (u32, i32) = if exponent >= 32 {
            return None;
        } else if exponent == 31 {
            if mantissa > 0xFF {
                return None;
            }
            assert(mantissa << 16u32 == mantissa * 0x1_0000) by (bit_vector)
                requires
                    mantissa <= 0xFF,
            ;
            proof {
                lemma_pow_adds(256, 29, 2);
                reveal_with_fuel(pow, 3);
                let p = pow(256, 29);
                lemma_pow_positive(256, 31);
                assert(self.scaled_mantissa() == mantissa * pow(256, 31));
                assert((mantissa * 0x1_0000) * p == mantissa * (p * 0x1_0000)) by (nonlinear_arith);
            }
            (mantissa << 16u32, exponent - 2)
        } else if exponent == 30 {
            if mantissa > 0xFFFF {
                return None;
            }
            assert(mantissa << 8u32 == mantissa * 0x100) by (bit_vector)
                requires
                    mantissa <= 0xFFFF,
            ;
            proof {
                lemma_pow_adds(256, 29, 1);
                reveal_with_fuel(pow, 2);
                let p = pow(256, 29);
                lemma_pow_positive(256, 30);
                assert(self.scaled_mantissa() == mantissa * pow(256, 30));
                assert((mantissa * 0x100) * p == mantissa * (p * 0x100)) by (nonlinear_arith);
            }
            (mantissa << 8u32, exponent - 1)
        } else if exponent < 0 {
            let shift: u32 = ((-exponent) * 8) as u32;
            proof {
                lemma_shift_is_div(mantissa, shift);
                reveal_with_fuel(pow, 4);
                assert(pow(256, 0) == 1);
            }
            (mantissa >> shift, 0)
        } else {
            proof {
                lemma_pow_positive(256, exponent as nat);
            }
            (mantissa, exponent)
        };
        proof {
            lemma_normalised_fits(mantissa as nat, exponent as nat);
        }
        assert(mantissa as nat * pow(256, exponent as nat) == self.scaled_mantissa());

        // Now calculate the result: mantissa * base^exponent.
        let mantissa = limbs_from_u64(mantissa as u64);
        let base = limbs_from_u64(BASE);
        let exponent = limbs_from_u64(exponent as u64);
        let result = u256_mul(mantissa, u256_pow(base, exponent));

        match u256_cmp(result, limbs_from_u64(0)) {
            core::cmp::Ordering::Equal => None,
            _ => Some(ExpandedDifficulty(result)),
        }
    }
}

impl ExpandedDifficulty {
    /// The integer that this threshold denotes.
    pub closed spec fn value(&self) -> nat {
        limbs_value(self.0)
    }
}

impl Work {
    /// Adds two work values.
    ///
    /// The sum of the work along any real chain fits in 128 bits, so callers
    /// must rule out an overflow; [`Work::checked_add`] reports one instead.
    pub fn add(self, rhs: Work) -> (r: Work)
        requires
            self.0 + rhs.0 <= u128::MAX,
        ensures
            r.0 == self.0 + rhs.0,
    {
        Work(self.0 + rhs.0)
    }

    /// Adds `rhs` to this work value in place.
    pub fn add_assign(&mut self, rhs: Work)
        requires
            old(self).0 + rhs.0 <= u128::MAX,
        ensures
            final(self).0 == old(self).0 + rhs.0,
    {
        *self = self.add(rhs);
    }

    /// Adds two work values, or returns `None` where the sum does not fit in
    /// 128 bits: a broken invariant of the caller, never a valid chain state.
    pub fn checked_add(self, rhs: Work) -> (r: Option<Work>)
        ensures
            r is Some <==> self.0 + rhs.0 <= u128::MAX,
            r matches Some(w) ==> w.0 == self.0 + rhs.0,
    {
        match self.0.checked_add(rhs.0) {
            Some(sum) => Some(Work(sum)),
            None => None,
        }
    }
}

impl ExpandedDifficulty {
    /// Three-way comparison of this threshold with a hash, both read as
    /// 256-bit integers.
    pub open spec fn cmp_hash_spec(&self, hash: &crate::block::Hash) -> core::cmp::Ordering {
        cmp_int(self.value() as int, hash.value() as int)
    }

    /// The four little-endian 64-bit limbs of this threshold.
    pub fn to_limbs(&self) -> (r: [u64; 4])
        ensures
            limbs_value(r) == self.value(),
    {
        self.0
    }

    /// The threshold that a hash denotes, read as a little-endian 256-bit
    /// integer.
    ///
    /// Used only to compare hashes with thresholds: hashes are not used to
    /// calculate the difficulty of later blocks.
    fn from_hash(hash: &crate::block::Hash) -> (r: ExpandedDifficulty)
        ensures
            r.value() == hash.value(),
    {
        ExpandedDifficulty(u256_from_le_bytes(&hash.0))
    }
}

impl crate::block::Hash {
    /// Three-way comparison of this hash with a threshold, both read as
    /// 256-bit integers.
    pub open spec fn cmp_threshold_spec(&self, threshold: &ExpandedDifficulty) -> core::cmp::Ordering {
        cmp_int(self.value() as int, threshold.value() as int)
    }
}

impl PartialEq for ExpandedDifficulty {
    fn eq(&self, other: &ExpandedDifficulty) -> (r: bool) {
        match u256_cmp(self.0, other.0) {
            core::cmp::Ordering::Equal => true,
            _ => false,
        }
    }
}

impl vstd::std_specs::cmp::PartialEqSpecImpl for ExpandedDifficulty {
    open spec fn obeys_eq_spec() -> bool {
        true
    }

    open spec fn eq_spec(&self, other: &ExpandedDifficulty) -> bool {
        self.value() == other.value()
    }
}

impl Eq for ExpandedDifficulty {

}

impl PartialOrd for ExpandedDifficulty {
    /// Thresholds are ordered by the integers that they denote.
    fn partial_cmp(&self, other: &ExpandedDifficulty) -> (r: Option<core::cmp::Ordering>) {
        Some(u256_cmp(self.0, other.0))
    }
}

impl vstd::std_specs::cmp::PartialOrdSpecImpl for ExpandedDifficulty {
    open spec fn obeys_partial_cmp_spec() -> bool {
        true
    }

    open spec fn partial_cmp_spec(&self, other: &ExpandedDifficulty) -> Option<core::cmp::Ordering> {
        Some(cmp_int(self.value() as int, other.value() as int))
    }
}

impl PartialEq<crate::block::Hash> for ExpandedDifficulty {
    /// Is `self` equal to `other`? See `partial_cmp`.
    fn eq(&self, other: &crate::block::Hash) -> (r: bool) {
        match self.partial_cmp(other) {
            Some(core::cmp::Ordering::Equal) => true,
            _ => false,
        }
    }
}

impl vstd::std_specs::cmp::PartialEqSpecImpl<crate::block::Hash> for ExpandedDifficulty {
    open spec fn obeys_eq_spec() -> bool {
        true
    }

    open spec fn eq_spec(&self, other: &crate::block::Hash) -> bool {
        self.cmp_hash_spec(other) == core::cmp::Ordering::Equal
    }
}

impl PartialOrd<crate::block::Hash> for ExpandedDifficulty {
    /// Hashes are compared with thresholds by reading the hash as a
    /// little-endian 256-bit integer.
    fn partial_cmp(&self, other: &crate::block::Hash) -> (r: Option<core::cmp::Ordering>) {
        self.partial_cmp(&ExpandedDifficulty::from_hash(other))
    }
}

impl vstd::std_specs::cmp::PartialOrdSpecImpl<crate::block::Hash> for ExpandedDifficulty {
    open spec fn obeys_partial_cmp_spec() -> bool {
        true
    }

    open spec fn partial_cmp_spec(&self, other: &crate::block::Hash) -> Option<core::cmp::Ordering> {
        Some(self.cmp_hash_spec(other))
    }
}

impl PartialEq<ExpandedDifficulty> for crate::block::Hash {
    /// Is `self` equal to `other`? See `partial_cmp`.
    fn eq(&self, other: &ExpandedDifficulty) -> (r: bool) {
        other.eq(self)
    }
}

impl vstd::std_specs::cmp::PartialEqSpecImpl<ExpandedDifficulty> for crate::block::Hash {
    open spec fn obeys_eq_spec() -> bool {
        true
    }

    open spec fn eq_spec(&self, other: &ExpandedDifficulty) -> bool {
        self.cmp_threshold_spec(other) == core::cmp::Ordering::Equal
    }
}

impl PartialOrd<ExpandedDifficulty> for crate::block::Hash {
    /// Hashes are compared with thresholds by reading the hash as a
    /// little-endian 256-bit integer: the reverse of the threshold's own
    /// comparison.
    fn partial_cmp(&self, other: &ExpandedDifficulty) -> (r: Option<core::cmp::Ordering>) {
        match other.partial_cmp(self) {
            Some(core::cmp::Ordering::Less) => Some(core::cmp::Ordering::Greater),
            Some(core::cmp::Ordering::Greater) => Some(core::cmp::Ordering::Less),
            Some(core::cmp::Ordering::Equal) => Some(core::cmp::Ordering::Equal),
            None => {
                // Thresholds and hashes have a total order.
                proof {
                    assert(false);
                }
                None
            },
        }
    }
}

impl vstd::std_specs::cmp::PartialOrdSpecImpl<ExpandedDifficulty> for crate::block::Hash {
    open spec fn obeys_partial_cmp_spec() -> bool {
        true
    }

    open spec fn partial_cmp_spec(&self, other: &ExpandedDifficulty) -> Option<core::cmp::Ordering> {
        Some(self.cmp_threshold_spec(other))
    }
}

/// The reverse of an ordering: `Less` and `Greater` swap places.
pub open spec fn reverse_ordering(o: core::cmp::Ordering) -> core::cmp::Ordering {
    match o {
        core::cmp::Ordering::Less => core::cmp::Ordering::Greater,
        core::cmp::Ordering::Equal => core::cmp::Ordering::Equal,
        core::cmp::Ordering::Greater => core::cmp::Ordering::Less,
    }
}

/// Comparing a threshold with a hash gives the reverse of comparing the hash
/// with the threshold, and the two are equal either both ways or neither.
pub proof fn lemma_threshold_hash_cmp_reversed(d: ExpandedDifficulty, h: crate::block::Hash)
    ensures
        d.cmp_hash_spec(&h) == reverse_ordering(h.cmp_threshold_spec(&d)),
        (d.cmp_hash_spec(&h) == core::cmp::Ordering::Equal) == (h.cmp_threshold_spec(&d)
            == core::cmp::Ordering::Equal),
{
}

/// A hash of all-zero bytes is below every threshold that a compact
/// difficulty expands to, so it meets any valid threshold.
pub proof fn lemma_zero_hash_meets_threshold(
    c: CompactDifficulty,
    d: ExpandedDifficulty,
    h: crate::block::Hash,
)
    requires
        c.expanded_value() == Some(d.value()),
        forall|i: int| 0 <= i < 32 ==> h.0[i] == 0,
    ensures
        h.value() < d.value(),
        h.cmp_threshold_spec(&d) == core::cmp::Ordering::Less,
        d.cmp_hash_spec(&h) == core::cmp::Ordering::Greater,
{
    crate::block::lemma_zero_bytes_value(h.0@);
}

/// Adding work is commutative.
pub proof fn lemma_work_add_commutative(a: Work, b: Work)
    requires
        a.0 + b.0 <= u128::MAX,
    ensures
        b.0 + a.0 <= u128::MAX,
        a.0 + b.0 == b.0 + a.0,
{
}

/// Adding work is associative where no partial sum overflows.
pub proof fn lemma_work_add_associative(a: Work, b: Work, c: Work)
    requires
        a.0 + b.0 + c.0 <= u128::MAX,
    ensures
        (a.0 + b.0) + c.0 == a.0 + (b.0 + c.0),
{
}

/// For a negative exponent, shifting the mantissa right by whole bytes is
/// division by the matching power of 256.
proof fn lemma_shift_is_div(m: u32, shift: u32)
    requires
        shift == 8 || shift == 16 || shift == 24,
    ensures
        shift == 8 ==> m >> shift == m / 0x100,
        shift == 16 ==> m >> shift == m / 0x1_0000,
        shift == 24 ==> m >> shift == m / 0x100_0000,
{
    assert(shift == 8u32 ==> m >> shift == m / 0x100u32) by (bit_vector);
    assert(shift == 16u32 ==> m >> shift == m / 0x1_0000u32) by (bit_vector);
    assert(shift == 24u32 ==> m >> shift == m / 0x100_0000u32) by (bit_vector);
}

/// 256^32 is 2^256.
proof fn lemma_pow256_32()
    ensures
        pow(256, 32) == u256_modulus(),
{
    reveal_with_fuel(pow, 9);
    assert(pow(256, 8) == limb_radix());
    lemma_pow_adds(256, 8, 8);
    lemma_pow_adds(256, 16, 8);
    lemma_pow_adds(256, 24, 8);
}

/// A normalised mantissa below 2^24 with an exponent of at most 29 gives a
/// product below 2^256.
proof fn lemma_normalised_fits(m: nat, e: nat)
    requires
        m < 0x100_0000,
        e <= 29,
    ensures
        pow(256, e) < u256_modulus(),
        m * pow(256, e) + 1 < u256_modulus(),
{
    lemma_pow256_32();
    lemma_pow_adds(256, 29, 3);
    reveal_with_fuel(pow, 4);
    lemma_pow_increases(256, e, 29);
    lemma_pow_positive(256, e);
    lemma_pow_increases(256, 1, 29);
    let p = pow(256, e);
    let q = pow(256, 29);
    assert(m * p + 1 < u256_modulus()) by (nonlinear_arith)
        requires
            m < 0x100_0000,
            q > 1,
            0 < p <= q,
            q * 0x100_0000 == u256_modulus(),
    ;
}

} // verus!
