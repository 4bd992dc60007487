use stable_coin_core::feed::{
    control_stable_coin, stability_measure_parameter_to_interest_rate, Oracle, SControllingError,
    VFeeder, VFeedingError, INTEREST_STEP,
};

const MAX_MIN_COL_E6: u128 = 2_000_000;

fn feeder() -> VFeeder {
    VFeeder::new(7, 11, 13, MAX_MIN_COL_E6)
}

#[test]
fn parameter_bands_match_the_state_parameter() {
    let f = feeder();
    // deep over-stability: no interest, requirement narrowed by the full 50 steps
    assert_eq!(f.parameters_for(255), (0, MAX_MIN_COL_E6 - 50 * 11, 0));
    assert_eq!(f.parameters_for(206), (0, MAX_MIN_COL_E6 - 50 * 11, 0));
    // requirement narrows with the parameter
    assert_eq!(f.parameters_for(160), (0, MAX_MIN_COL_E6 - 5 * 11, 0));
    assert_eq!(f.parameters_for(156), (0, MAX_MIN_COL_E6 - 11, 0));
    // mild interest band
    assert_eq!(f.parameters_for(140), (15 * 7, MAX_MIN_COL_E6, 0));
    // the plateau
    assert_eq!(f.parameters_for(127), (25 * 7, MAX_MIN_COL_E6, 0));
    assert_eq!(f.parameters_for(125), (25 * 7, MAX_MIN_COL_E6, 0));
    // steepening interest
    assert_eq!(f.parameters_for(60), (90 * 7, MAX_MIN_COL_E6, 0));
    // crisis band: holders start earning a share
    assert_eq!(f.parameters_for(10), (140 * 7, MAX_MIN_COL_E6, 40 * 13));
    assert_eq!(f.parameters_for(0), (150 * 7, MAX_MIN_COL_E6, 50 * 13));
}

#[test]
fn feeds_fail_without_a_measurement() {
    let f = feeder();
    assert_eq!(f.feed_all(None), Err(VFeedingError::CouldntFeed));
    assert_eq!(f.feed_interest_rate(None), Err(VFeedingError::CouldntFeed));
    assert_eq!(f.feed_minimum_collateral_coefficient(None), Err(VFeedingError::CouldntFeed));
}

#[test]
fn feeds_split_the_parameter_triple() {
    let f = feeder();
    assert_eq!(f.feed_all(Some(127)), Ok((175, MAX_MIN_COL_E6, 0)));
    assert_eq!(f.feed_interest_rate(Some(127)), Ok(175));
    assert_eq!(f.feed_minimum_collateral_coefficient(Some(127)), Ok(MAX_MIN_COL_E6));
}

#[test]
fn vault_parameters_can_be_reconfigured() {
    let mut f = feeder();
    assert_eq!(f.get_vault_parameters(), (7, 11, 13));
    assert_eq!(f.get_maximum_minimum_collateral_e6(), MAX_MIN_COL_E6);
    assert_eq!(f.set_vault_parameters(70, 110, 130), Ok(()));
    assert_eq!(f.get_vault_parameters(), (70, 110, 130));
}

#[test]
fn stability_measure_maps_to_signed_rates() {
    // over-stable: holders are penalized
    assert_eq!(stability_measure_parameter_to_interest_rate(255), 50 * INTEREST_STEP);
    assert_eq!(stability_measure_parameter_to_interest_rate(206), INTEREST_STEP);
    // the neutral band
    assert_eq!(stability_measure_parameter_to_interest_rate(205), 0);
    assert_eq!(stability_measure_parameter_to_interest_rate(127), 0);
    assert_eq!(stability_measure_parameter_to_interest_rate(50), 0);
    // under-stable: holders are rewarded
    assert_eq!(stability_measure_parameter_to_interest_rate(49), -INTEREST_STEP);
    assert_eq!(stability_measure_parameter_to_interest_rate(0), -50 * INTEREST_STEP);
}

#[test]
fn controlling_needs_a_measurement() {
    assert_eq!(control_stable_coin(None), Err(SControllingError::CouldntFeed));
    assert_eq!(control_stable_coin(Some(0)), Ok(-50 * INTEREST_STEP));
    assert_eq!(control_stable_coin(Some(255)), Ok(50 * INTEREST_STEP));
}

#[test]
fn oracle_reports_its_stored_prices() {
    let oracle = Oracle { azero_usd_price_e6: 1_234_567, azero_ausd_price_e6: 998_877 };
    assert_eq!(oracle.get_azero_usd_price_e6(), 1_234_567);
    assert_eq!(oracle.get_azero_ausd_price_e6(), 998_877);
}
