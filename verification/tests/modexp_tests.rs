use dhchat::modexp::modular_pow;
use dhchat::params::DH_PRIME;

/// A reference modular exponentiation in arbitrary-enough precision: plain
/// square-and-multiply over u128 intermediates, written independently.
fn reference_modpow(base: u64, exponent: u64, modulus: u64) -> u64 {
    if modulus == 1 {
        return 0;
    }
    let m = modulus as u128;
    let mut result: u128 = 1 % m;
    let mut b: u128 = base as u128 % m;
    let mut e = exponent;
    while e > 0 {
        if e & 1 == 1 {
            result = result * b % m;
        }
        b = b * b % m;
        e >>= 1;
    }
    result as u64
}

#[test]
fn modpow_small_values() {
    assert_eq!(modular_pow(2, 10, 1000), 24);
    assert_eq!(modular_pow(3, 4, 5), 1);
    assert_eq!(modular_pow(7, 0, 13), 1);
    assert_eq!(modular_pow(0, 5, 13), 0);
    assert_eq!(modular_pow(10, 1, 7), 3);
}

#[test]
fn modpow_modulus_one_is_zero() {
    assert_eq!(modular_pow(123, 456, 1), 0);
    assert_eq!(modular_pow(0, 0, 1), 0);
}

#[test]
fn modpow_large_operands() {
    assert_eq!(
        modular_pow(0xDEAD_BEEF, 0xCAFE_BABE, DH_PRIME),
        0xBF7E_2CF7_EDF6_6F89
    );
    assert_eq!(modular_pow(2, 2, DH_PRIME), 4);
    assert_eq!(modular_pow(u64::MAX, u64::MAX, u64::MAX), 0);
}

#[test]
fn modpow_matches_reference() {
    let cases: &[(u64, u64, u64)] = &[
        (2, 10, 1000),
        (0, 0, 2),
        (1, u64::MAX, 97),
        (u64::MAX, 2, DH_PRIME),
        (0x1234_5678_9ABC_DEF0, 0x0FED_CBA9_8765_4321, DH_PRIME),
        (3, 1_000_000, 998_244_353),
        (DH_PRIME - 1, DH_PRIME - 2, DH_PRIME),
    ];
    for &(b, e, m) in cases {
        assert_eq!(modular_pow(b, e, m), reference_modpow(b, e, m));
    }
}
