use primitive_types::{U256, U512};
use std::cmp::Ordering;
use zebra_difficulty::block;
use zebra_difficulty::difficulty::{CompactDifficulty, ExpandedDifficulty, Work};

fn expanded(bits: u32) -> Option<U256> {
    CompactDifficulty(bits)
        .to_expanded()
        .map(|d| U256(d.to_limbs()))
}

fn hash_of(value: U256) -> block::Hash {
    let mut bytes = [0u8; 32];
    value.to_little_endian(&mut bytes);
    block::Hash(bytes)
}

/// The work for a threshold, computed with 512-bit arithmetic.
fn exact_work(threshold: U256) -> U512 {
    (U512::one() << 256) / (U512::from(threshold) + U512::one())
}

#[test]
fn expanded_zero_is_none() {
    assert_eq!(expanded(0x0000_0000), None);
    assert!(CompactDifficulty(0x0000_0000).to_work().is_none());
}

#[test]
fn expanded_example_value() {
    assert_eq!(expanded(0x0400_3456), Some(U256::from(3_429_888u64)));
    assert_eq!(
        CompactDifficulty(0x0400_3456).to_expanded().map(|d| d.to_limbs()),
        Some([3_429_888, 0, 0, 0])
    );
}

#[test]
fn work_of_example_does_not_fit_in_128_bits() {
    let work = exact_work(U256::from(3_429_888u64));
    assert_eq!(work, (U512::one() << 256) / U512::from(3_429_889u64));
    assert!(work > U512::from(u128::MAX));
    assert_eq!(CompactDifficulty(0x0400_3456).to_work(), None);
}

#[test]
fn work_matches_exact_division() {
    for bits in [0x1d00_ffffu32, 0x1f07_ffff, 0x2007_ffff, 0x1c05_a3f4, 0x2200_00ff, 0x2100_ffff] {
        let threshold = expanded(bits).expect("valid threshold");
        let exact = exact_work(threshold);
        let work = CompactDifficulty(bits).to_work();
        if exact <= U512::from(u128::MAX) {
            assert_eq!(work, Some(Work(exact.low_u128())), "bits {:#010x}", bits);
        } else {
            assert_eq!(work, None, "bits {:#010x}", bits);
        }
    }
    assert_eq!(CompactDifficulty(0x1d00_ffff).to_work(), Some(Work(4_295_032_833)));
}

#[test]
fn work_of_largest_threshold() {
    // 0xff * 256^31 is the largest threshold: its work is 1.
    assert_eq!(
        expanded(0x2200_00ff),
        Some(U256::from(0xffu64) << 248)
    );
    assert_eq!(CompactDifficulty(0x2200_00ff).to_work(), Some(Work(1)));
}

#[test]
fn sign_bit_set_is_none() {
    for bits in [0x0480_3456u32, 0x0080_0000, 0x1d80_ffff, 0x20ff_ffff, 0xffff_ffff] {
        assert_eq!(expanded(bits), None, "bits {:#010x}", bits);
        assert_eq!(CompactDifficulty(bits).to_work(), None);
    }
}

#[test]
fn exponent_32_or_more_is_none() {
    for bits in [0x2300_0000u32, 0x2300_0001, 0x2400_0001, 0xff00_0000, 0xff7f_ffff] {
        assert_eq!(expanded(bits), None, "bits {:#010x}", bits);
    }
}

#[test]
fn overflow_boundaries() {
    // Exponent 31: only a mantissa of one byte fits.
    assert_eq!(expanded(0x2200_0100), None);
    assert_eq!(expanded(0x2200_0001), Some(U256::one() << 248));
    // Exponent 30: only a mantissa of two bytes fits.
    assert_eq!(expanded(0x2101_0000), None);
    assert_eq!(expanded(0x2100_ffff), Some(U256::from(0xffffu64) << 240));
    assert_eq!(expanded(0x2100_0000), None);
    // Exponent 29: every unsigned mantissa fits.
    assert_eq!(expanded(0x207f_ffff), Some(U256::from(0x7f_ffffu64) << 232));
}

#[test]
fn underflow_shifts_out_low_bytes() {
    assert_eq!(expanded(0x0212_3456), Some(U256::from(0x1234u64)));
    assert_eq!(expanded(0x0112_3456), Some(U256::from(0x12u64)));
    assert_eq!(expanded(0x0100_3456), None);
    assert_eq!(expanded(0x007f_ffff), None);
    assert_eq!(expanded(0x0300_0001), Some(U256::one()));
}

#[test]
fn zero_hash_meets_any_threshold() {
    let zero = block::Hash([0u8; 32]);
    for bits in [0x0300_0001u32, 0x0400_3456, 0x1d00_ffff, 0x2200_00ff] {
        let threshold = CompactDifficulty(bits).to_expanded().expect("valid threshold");
        assert!(zero <= threshold);
        assert!(zero < threshold);
        assert!(threshold >= zero);
        assert!(zero != threshold);
    }
}

#[test]
fn threshold_hash_comparison_is_reversed() {
    let threshold = CompactDifficulty(0x0400_3456).to_expanded().unwrap();
    let value = U256::from(3_429_888u64);
    let hashes = [
        hash_of(value - 1),
        hash_of(value),
        hash_of(value + 1),
        hash_of(U256::MAX),
        hash_of(U256::zero()),
        hash_of(value << 8),
    ];
    let expected = [
        Ordering::Greater,
        Ordering::Equal,
        Ordering::Less,
        Ordering::Less,
        Ordering::Greater,
        Ordering::Less,
    ];
    for (hash, want) in hashes.iter().zip(expected.iter()) {
        assert_eq!(threshold.partial_cmp(hash), Some(*want));
        assert_eq!(hash.partial_cmp(&threshold), Some(want.reverse()));
        assert_eq!(threshold == *hash, *want == Ordering::Equal);
        assert_eq!(*hash == threshold, *want == Ordering::Equal);
    }
}

#[test]
fn hash_bytes_are_little_endian() {
    let threshold = CompactDifficulty(0x0400_3456).to_expanded().unwrap();
    // 3429888 is 0x345600: little-endian bytes 00 56 34.
    let mut bytes = [0u8; 32];
    bytes[1] = 0x56;
    bytes[2] = 0x34;
    assert!(block::Hash(bytes) == threshold);
    // The same bytes read big-endian would be a far larger number.
    let mut reversed = [0u8; 32];
    reversed[31] = 0x00;
    reversed[30] = 0x56;
    reversed[29] = 0x34;
    assert!(block::Hash(reversed) > threshold);
}

#[test]
fn thresholds_compare_by_value() {
    let small = CompactDifficulty(0x0400_3456).to_expanded().unwrap();
    let large = CompactDifficulty(0x1d00_ffff).to_expanded().unwrap();
    assert!(small < large);
    assert_eq!(large.partial_cmp(&small), Some(Ordering::Greater));
    assert!(small == small);
}

#[test]
fn work_addition() {
    assert_eq!(Work(5).add(Work(7)), Work(12));
    for (a, b) in [(0u128, 0u128), (1, 2), (u128::MAX - 3, 3), (12345, 678910)] {
        assert_eq!(Work(a).add(Work(b)), Work(b).add(Work(a)));
        assert_eq!(Work(a).checked_add(Work(b)), Some(Work(a + b)));
    }
    let mut total = Work::default();
    total.add_assign(Work(5));
    total.add_assign(Work(7));
    assert_eq!(total, Work(12));
}

#[test]
fn work_addition_overflow_is_reported() {
    assert_eq!(Work(u128::MAX).checked_add(Work(1)), None);
    assert_eq!(Work(1).checked_add(Work(u128::MAX)), None);
    assert_eq!(Work(u128::MAX).checked_add(Work(0)), Some(Work(u128::MAX)));
}

#[test]
fn distinct_compact_values_share_a_threshold() {
    // The format is redundant: a larger exponent with a shifted mantissa
    // denotes the same threshold.
    let a = CompactDifficulty(0x0400_3456).to_expanded();
    let b = CompactDifficulty(0x0334_5600).to_expanded();
    assert!(a.is_some());
    assert_eq!(a, b);
    assert_ne!(CompactDifficulty(0x0400_3456), CompactDifficulty(0x0334_5600));
    // Normalisation of exponents 31 and 30 gives the same values as well.
    assert_eq!(expanded(0x2200_0012), expanded(0x2100_1200));
    assert_eq!(expanded(0x2100_1234), expanded(0x2012_3400));
    // Underflow drops low bytes, so several patterns give one threshold.
    assert_eq!(expanded(0x0212_3456), expanded(0x0212_34ff));
    assert_eq!(
        ExpandedDifficulty::clone(&a.unwrap()),
        b.unwrap()
    );
}
