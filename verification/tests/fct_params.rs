use facet_protocol::fct_params::FctParams;

#[test]
fn test_fct_params_singleton() {
    let mut slot = None;

    // Initially not initialized
    assert!(!FctParams::is_initialized(&slot));
    assert!(FctParams::get(&slot).is_none());

    // Initialize with test values
    let max_supply = 21_000_000u128 * 10u128.pow(18);
    let target_per_period = 1000u128 * 10u128.pow(18);
    assert!(FctParams::init(&mut slot, max_supply, target_per_period));

    // Now it should be initialized
    assert!(FctParams::is_initialized(&slot));

    let params = FctParams::get(&slot).unwrap();
    assert_eq!(params.max_supply, max_supply);
    assert_eq!(params.target_per_period, target_per_period);
    // Trying to init again should return false
    assert!(!FctParams::init(&mut slot, max_supply, target_per_period));
}

#[test]
fn a_second_init_changes_nothing() {
    let mut slot = None;
    assert!(FctParams::init(&mut slot, 7, 3));
    assert!(!FctParams::init(&mut slot, 8, 4));
    let params = FctParams::get(&slot).unwrap();
    assert_eq!((params.max_supply, params.target_per_period), (7, 3));
}

#[test]
fn a_forced_init_replaces_the_parameters() {
    let mut slot = None;
    FctParams::force_init(&mut slot, 7, 3);
    FctParams::force_init(&mut slot, 8, 4);
    let params = FctParams::get(&slot).unwrap();
    assert_eq!((params.max_supply, params.target_per_period), (8, 4));
}
