use state_machine::numeric::{Amount, Counter};

#[test]
fn counter_starts_at_zero_and_steps_by_one() {
    assert_eq!(<u32 as Counter>::zero(), 0);
    assert_eq!(<u32 as Counter>::one(), 1);
    assert_eq!(Counter::plus(41u32, <u32 as Counter>::one()), 42);
    assert_eq!(Counter::plus(u32::MAX - 1, 1u32), u32::MAX);
}

#[test]
fn amount_zero_is_zero() {
    assert_eq!(<u128 as Amount>::zero(), 0);
}

#[test]
fn amount_addition_is_checked() {
    assert_eq!(Amount::checked_add(&1u128, &2u128), Some(3));
    assert_eq!(Amount::checked_add(&(u128::MAX - 1), &1u128), Some(u128::MAX));
    assert_eq!(Amount::checked_add(&u128::MAX, &1u128), None);
    assert_eq!(Amount::checked_add(&5u128, &0u128), Some(5));
}

#[test]
fn amount_subtraction_is_checked() {
    assert_eq!(Amount::checked_sub(&7u128, &2u128), Some(5));
    assert_eq!(Amount::checked_sub(&7u128, &7u128), Some(0));
    assert_eq!(Amount::checked_sub(&7u128, &8u128), None);
    assert_eq!(Amount::checked_sub(&0u128, &1u128), None);
}
