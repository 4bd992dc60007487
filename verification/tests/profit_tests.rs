use stable_coin_core::profit::{ProfitController, SPControllingError};
use stable_coin_core::E6;

const TREASURY: u64 = 9;
const OWNER: u64 = 3;
const GENERATOR: u64 = 4;

fn controller() -> ProfitController {
    // the treasury takes a quarter of every distribution
    ProfitController::new(TREASURY, 250_000, OWNER)
}

#[test]
fn only_registered_generators_are_heard() {
    let mut c = controller();
    assert_eq!(c.collect_profit(GENERATOR, 100), Err(SPControllingError::Generator));
    assert_eq!(c.set_is_generator(GENERATOR, true), Ok(()));
    assert_eq!(c.collect_profit(GENERATOR, 100), Ok(100));
    assert_eq!(c.get_total_profit(), 100);
    assert_eq!(c.set_is_generator(GENERATOR, false), Ok(()));
    assert_eq!(c.collect_profit(GENERATOR, 1), Err(SPControllingError::Generator));
}

#[test]
fn losses_pool_too() {
    let mut c = controller();
    c.set_is_generator(GENERATOR, true).unwrap();
    c.collect_profit(GENERATOR, 100).unwrap();
    c.collect_profit(GENERATOR, -40).unwrap();
    assert_eq!(c.get_total_profit(), 60);
}

#[test]
fn distribution_splits_between_treasury_and_owner() {
    let mut c = controller();
    c.set_is_generator(GENERATOR, true).unwrap();
    c.collect_profit(GENERATOR, 1000).unwrap();
    assert_eq!(c.distribute_income(), Ok((250, 750)));
    assert_eq!(c.get_total_profit(), 0);
    assert_eq!(c.distribute_income(), Err(SPControllingError::NoProfit));
}

#[test]
fn nothing_to_distribute_without_positive_profit() {
    let mut c = controller();
    c.set_is_generator(GENERATOR, true).unwrap();
    c.collect_profit(GENERATOR, -5).unwrap();
    assert_eq!(c.distribute_income(), Err(SPControllingError::NoProfit));
    assert_eq!(c.get_total_profit(), -5);
}

#[test]
fn treasury_part_stays_within_one() {
    let mut c = controller();
    assert_eq!(c.set_treassury_part_e6(E6 + 1), Err(SPControllingError::One));
    assert_eq!(c.set_treassury_part_e6(E6), Ok(()));
    c.set_is_generator(GENERATOR, true).unwrap();
    c.collect_profit(GENERATOR, 80).unwrap();
    assert_eq!(c.distribute_income(), Ok((80, 0)));
}

#[test]
fn treasury_address_can_move() {
    let mut c = controller();
    assert_eq!(c.get_treassury_address(), TREASURY);
    assert_eq!(c.set_treassury_address(OWNER), Ok(()));
    assert_eq!(c.get_treassury_address(), OWNER);
}
