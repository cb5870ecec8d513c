use weld::units::{ether_string, whole_units, UnitsError, Wei};

fn wei(v: u128) -> Wei {
    Wei { limbs: [v as u64, (v >> 64) as u64, 0, 0] }
}

#[test]
fn ether_string_of_one_and_a_half_ether() {
    assert_eq!(ether_string(&wei(1_500_000_000_000_000_000)), "1.500000000000000000");
}

#[test]
fn ether_string_of_zero() {
    assert_eq!(ether_string(&wei(0)), "0.000000000000000000");
}

#[test]
fn ether_string_of_one_wei() {
    assert_eq!(ether_string(&wei(1)), "0.000000000000000001");
}

#[test]
fn ether_string_of_a_large_balance() {
    // 100 ether
    assert_eq!(ether_string(&wei(100_000_000_000_000_000_000)), "100.000000000000000000");
    // 2^64 wei spans two words
    assert_eq!(ether_string(&wei(1u128 << 64)), "18.446744073709551616");
}

#[test]
fn ether_string_of_the_largest_word() {
    let max = Wei { limbs: [u64::MAX; 4] };
    assert_eq!(
        ether_string(&max),
        "115792089237316195423570985008687907853269984665640564039457.584007913129639935"
    );
}

#[test]
fn whole_units_scales_by_powers_of_ten() {
    assert_eq!(whole_units(1, 18).unwrap().limbs, wei(1_000_000_000_000_000_000).limbs);
    assert_eq!(whole_units(9, 4).unwrap().limbs, wei(90_000).limbs);
    assert_eq!(whole_units(3, 1).unwrap().limbs, wei(30).limbs);
    assert_eq!(whole_units(0, 5).unwrap().limbs, wei(0).limbs);
    assert_eq!(whole_units(1, 38).unwrap().limbs, wei(100_000_000_000_000_000_000_000_000_000_000_000_000).limbs);
    assert_eq!(whole_units(1, 77).unwrap().limbs, ethereum_types::U256::exp10(77).0);
}

#[test]
fn whole_units_refuses_units_beyond_256_bits() {
    assert_eq!(whole_units(1, 78).unwrap_err(), UnitsError::Overflow);
    assert_eq!(whole_units(0, 100).unwrap_err(), UnitsError::Overflow);
}

#[test]
fn ether_string_reads_back_as_the_amount() {
    for v in [0u128, 1, 999_999_999_999_999_999, 1_000_000_000_000_000_000, 123_456_789_012_345_678_901_234] {
        let text = ether_string(&wei(v));
        let (whole, frac) = text.split_once('.').unwrap();
        assert_eq!(frac.len(), 18);
        assert_eq!(whole.parse::<u128>().unwrap(), v / 1_000_000_000_000_000_000);
        assert_eq!(frac.parse::<u128>().unwrap(), v % 1_000_000_000_000_000_000);
    }
}
