use julia_nft::address::{Address, Grant};
use julia_nft::table::Key;
use julia_nft::word::U256;

#[test]
fn zero_and_small_values() {
    assert_eq!(U256::zero(), U256::new(0, 0));
    assert_eq!(U256::from_u64(7), U256::new(0, 7));
    assert_eq!(U256::from_u64(u64::MAX), U256::new(0, u64::MAX as u128));
    assert!(U256::zero().is_zero());
    assert!(!U256::from_u64(1).is_zero());
    assert!(!U256::new(1, 0).is_zero());
}

#[test]
fn successor_carries_into_the_high_half() {
    assert_eq!(U256::zero().checked_succ(), Some(U256::from_u64(1)));
    assert_eq!(U256::new(0, u128::MAX).checked_succ(), Some(U256::new(1, 0)));
    assert_eq!(U256::new(3, u128::MAX).checked_succ(), Some(U256::new(4, 0)));
    assert_eq!(
        U256::new(u128::MAX, u128::MAX - 1).checked_succ(),
        Some(U256::new(u128::MAX, u128::MAX))
    );
    assert_eq!(U256::new(u128::MAX, u128::MAX).checked_succ(), None);
}

#[test]
fn predecessor_borrows_from_the_high_half() {
    assert_eq!(U256::zero().checked_pred(), None);
    assert_eq!(U256::from_u64(1).checked_pred(), Some(U256::zero()));
    assert_eq!(U256::new(1, 0).checked_pred(), Some(U256::new(0, u128::MAX)));
    assert_eq!(U256::new(4, 9).checked_pred(), Some(U256::new(4, 8)));
}

#[test]
fn low_64_bits() {
    assert_eq!(U256::zero().wrapping_to_u64(), 0);
    assert_eq!(U256::from_u64(42).wrapping_to_u64(), 42);
    assert_eq!(U256::new(0, (1u128 << 64) + 7).wrapping_to_u64(), 7);
    assert_eq!(U256::new(5, 9).wrapping_to_u64(), 9);
    assert_eq!(U256::new(u128::MAX, u128::MAX).wrapping_to_u64(), u64::MAX);
    assert_eq!(U256::new(1, 1u128 << 64).wrapping_to_u64(), 0);
}

#[test]
fn division_by_ten() {
    assert_eq!(U256::zero().div_rem_10(), (U256::zero(), 0));
    assert_eq!(U256::from_u64(9).div_rem_10(), (U256::zero(), 9));
    assert_eq!(U256::from_u64(907).div_rem_10(), (U256::from_u64(90), 7));
    // 2^128 = 340282366920938463463374607431768211456
    assert_eq!(
        U256::new(1, 0).div_rem_10(),
        (U256::new(0, 34028236692093846346337460743176821145), 6)
    );
    // 2^256 - 1 = 115792089237316195423570985008687907853269984665640564039457584007913129639935
    // and 2^128 = 10 * 34028236692093846346337460743176821145 + 6
    let (quotient, rest) = U256::new(u128::MAX, u128::MAX).div_rem_10();
    assert_eq!(rest, 5);
    assert_eq!(quotient.hi, u128::MAX / 10);
    assert_eq!(quotient.to_decimal(), b"11579208923731619542357098500868790785326998466564056403945758400791312963993".to_vec());
}

#[test]
fn decimal_text() {
    assert_eq!(U256::zero().to_decimal(), b"0".to_vec());
    assert_eq!(U256::from_u64(7).to_decimal(), b"7".to_vec());
    assert_eq!(U256::from_u64(10).to_decimal(), b"10".to_vec());
    assert_eq!(U256::from_u64(999).to_decimal(), b"999".to_vec());
    assert_eq!(U256::from_u64(1000).to_decimal(), b"1000".to_vec());
    assert_eq!(U256::from_u64(u64::MAX).to_decimal(), b"18446744073709551615".to_vec());
    assert_eq!(
        U256::new(0, u128::MAX).to_decimal(),
        b"340282366920938463463374607431768211455".to_vec()
    );
    assert_eq!(
        U256::new(1, 0).to_decimal(),
        b"340282366920938463463374607431768211456".to_vec()
    );
    assert_eq!(
        U256::new(u128::MAX, u128::MAX).to_decimal(),
        b"115792089237316195423570985008687907853269984665640564039457584007913129639935".to_vec()
    );
}

#[test]
fn addresses() {
    let zero = Address::zero_address();
    assert_eq!(zero, Address::new(0, 0));
    assert!(zero.is_zero());
    assert!(!Address::new(0, 1).is_zero());
    assert!(!Address::new(1, 0).is_zero());
    assert_ne!(Address::new(1, 0), Address::new(0, 1));
}

#[test]
fn keys_compare_by_value() {
    let (a, b) = (Address::new(1, 2), Address::new(1, 3));
    assert!(a.same(&Address::new(1, 2)));
    assert!(!a.same(&b));
    assert!(!a.same(&Address::new(2, 2)));
    assert!(U256::new(1, 2).same(&U256::new(1, 2)));
    assert!(!U256::new(1, 2).same(&U256::new(2, 2)));
    assert!(!U256::new(1, 2).same(&U256::new(1, 1)));
    let grant = Grant { owner: a, operator: b };
    assert!(grant.same(&Grant { owner: a, operator: b }));
    assert!(!grant.same(&Grant { owner: b, operator: a }));
    assert!(!grant.same(&Grant { owner: a, operator: a }));
}
