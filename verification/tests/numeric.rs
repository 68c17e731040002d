use state_machine::numeric::{Amount, Counter, Scalar};

#[test]
fn zero_of_a_counter_is_zero() {
    assert_eq!(<u32 as Scalar>::zero(), 0u32);
}

#[test]
fn one_of_a_counter_is_one() {
    assert_eq!(<u32 as Counter>::one(), 1u32);
}

#[test]
fn counter_addition_is_exact() {
    assert_eq!(Scalar::checked_add(&5u32, &7u32), Some(12u32));
    assert_eq!(Scalar::checked_add(&0u32, &0u32), Some(0u32));
    assert_eq!(Scalar::checked_add(&(u32::MAX - 1), &1u32), Some(u32::MAX));
}

#[test]
fn counter_addition_reports_overflow() {
    assert_eq!(Scalar::checked_add(&u32::MAX, &1u32), None);
    assert_eq!(Scalar::checked_add(&u32::MAX, &u32::MAX), None);
    assert_eq!(Scalar::checked_add(&1u32, &u32::MAX), None);
}

#[test]
fn counter_advances_in_unit_steps() {
    let mut counter = <u32 as Scalar>::zero();
    for expected in 1..=100u32 {
        counter = Scalar::checked_add(&counter, &<u32 as Counter>::one()).unwrap();
        assert_eq!(counter, expected);
    }
}

#[test]
fn zero_of_an_amount_is_zero() {
    assert_eq!(<u128 as Scalar>::zero(), 0u128);
    assert!(Amount::is_zero(&<u128 as Scalar>::zero()));
}

#[test]
fn amount_addition_is_exact() {
    assert_eq!(Scalar::checked_add(&30u128, &12u128), Some(42u128));
    assert_eq!(
        Scalar::checked_add(&(u128::MAX - 10), &10u128),
        Some(u128::MAX)
    );
}

#[test]
fn amount_addition_reports_overflow() {
    assert_eq!(Scalar::checked_add(&u128::MAX, &1u128), None);
    assert_eq!(Scalar::checked_add(&(u128::MAX - 10), &11u128), None);
}

#[test]
fn amount_subtraction_is_exact() {
    assert_eq!(Amount::checked_sub(&100u128, &30u128), Some(70u128));
    assert_eq!(Amount::checked_sub(&30u128, &30u128), Some(0u128));
    assert_eq!(Amount::checked_sub(&u128::MAX, &1u128), Some(u128::MAX - 1));
}

#[test]
fn amount_subtraction_reports_underflow() {
    assert_eq!(Amount::checked_sub(&10u128, &100u128), None);
    assert_eq!(Amount::checked_sub(&0u128, &1u128), None);
}

#[test]
fn only_zero_is_zero() {
    assert!(Amount::is_zero(&0u128));
    assert!(!Amount::is_zero(&1u128));
    assert!(!Amount::is_zero(&u128::MAX));
}
