use kitties::template::{cause_error, DoSomething, Error, GenesisConfig, Pallet};

#[test]
fn genesis_starts_at_zero() {
    assert_eq!(GenesisConfig::default().genesis_value, 0);
}

#[test]
fn cause_error_without_a_number_fails_none_value() {
    assert_eq!(cause_error(None), Err(Error::NoneValue));
}

#[test]
fn cause_error_raises_by_one() {
    assert_eq!(cause_error(Some(0)), Ok(1));
    assert_eq!(cause_error(Some(41)), Ok(42));
    assert_eq!(cause_error(Some(u32::MAX - 1)), Ok(u32::MAX));
}

#[test]
fn cause_error_at_the_largest_fails_storage_overflow() {
    assert_eq!(cause_error(Some(u32::MAX)), Err(Error::StorageOverflow));
}

#[test]
fn increase_value_adds_five() {
    assert_eq!(Pallet::increase_value(0), 5);
    assert_eq!(Pallet::increase_value(37), 42);
    assert_eq!(Pallet::increase_value(u32::MAX - 5), u32::MAX);
}
