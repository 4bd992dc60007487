use stable_coin_core::ledger::{RebasingLedger, TokenError};
use stable_coin_core::{TransferAck, E12, E6};

const ALICE: u64 = 1;
const BOB: u64 = 2;
const EVE: u64 = 5;
const TREASURY: u64 = 9;
const CONTROLLER: u64 = 8;
const PROFIT_CONTROLLER: u64 = 7;
const ONE_PERCENT_E12: i128 = 10_000_000_000;

fn untaxed_ledger() -> RebasingLedger {
    RebasingLedger::new(0, 0, 0, TREASURY, CONTROLLER, PROFIT_CONTROLLER)
}

#[test]
fn fresh_ledger_is_empty() {
    let ledger = untaxed_ledger();
    assert_eq!(ledger.total_supply(), 0);
    assert_eq!(ledger.rated_supply(), 0);
    assert_eq!(ledger.unrated_supply(), 0);
    assert_eq!(ledger.balance_of(ALICE, 0), 0);
    assert_eq!(ledger.applied_denominator_e12(ALICE), E12);
    assert!(ledger.is_unrated(TREASURY));
}

#[test]
fn mint_credits_the_account_and_the_supply() {
    let mut ledger = untaxed_ledger();
    assert_eq!(ledger.mint(ALICE, E12, 0), Ok(()));
    assert_eq!(ledger.balance_of(ALICE, 0), E12);
    assert_eq!(ledger.balance_of(BOB, 0), 0);
    assert_eq!(ledger.total_supply(), E12);
    assert_eq!(ledger.rated_supply(), E12);
    assert_eq!(ledger.mint(0, 5, 0), Err(TokenError::ZeroRecipientAddress));
}

#[test]
fn burn_debits_and_respects_the_balance() {
    let mut ledger = untaxed_ledger();
    ledger.mint(ALICE, 1000, 0).unwrap();
    assert_eq!(ledger.burn(ALICE, 300, 0), Ok(()));
    assert_eq!(ledger.balance_of(ALICE, 0), 700);
    assert_eq!(ledger.total_supply(), 700);
    assert_eq!(ledger.burn(ALICE, 701, 0), Err(TokenError::InsufficientBalance));
    assert_eq!(ledger.balance_of(ALICE, 0), 700);
    assert_eq!(ledger.burn(0, 1, 0), Err(TokenError::ZeroRecipientAddress));
}

#[test]
fn transfer_moves_face_value_without_fee() {
    let mut ledger = untaxed_ledger();
    ledger.mint(ALICE, 100_000, 0).unwrap();
    assert_eq!(ledger.transfer(ALICE, BOB, 1000, 0, TransferAck::Accepted), Ok(()));
    assert_eq!(ledger.balance_of(ALICE, 0), 99_000);
    assert_eq!(ledger.balance_of(BOB, 0), 1000);
    assert_eq!(ledger.total_supply(), 100_000);
}

#[test]
fn transfer_to_self_changes_nothing() {
    let mut ledger = untaxed_ledger();
    ledger.mint(ALICE, 500, 0).unwrap();
    assert_eq!(ledger.transfer(ALICE, ALICE, 200, 0, TransferAck::Accepted), Ok(()));
    assert_eq!(ledger.balance_of(ALICE, 0), 500);
    assert_eq!(ledger.total_supply(), 500);
}

#[test]
fn invalid_transfer_fails_without_change() {
    let mut ledger = untaxed_ledger();
    ledger.mint(ALICE, 10, 0).unwrap();
    assert_eq!(
        ledger.transfer(BOB, EVE, 10, 0, TransferAck::Accepted),
        Err(TokenError::InsufficientBalance)
    );
    assert_eq!(
        ledger.transfer(0, BOB, 1, 0, TransferAck::Accepted),
        Err(TokenError::ZeroSenderAddress)
    );
    assert_eq!(
        ledger.transfer(ALICE, 0, 1, 0, TransferAck::Accepted),
        Err(TokenError::ZeroRecipientAddress)
    );
    assert_eq!(ledger.balance_of(ALICE, 0), 10);
}

#[test]
fn rejected_acknowledgement_stops_the_transfer() {
    let mut ledger = untaxed_ledger();
    ledger.mint(ALICE, 100, 0).unwrap();
    assert_eq!(
        ledger.transfer(ALICE, BOB, 10, 0, TransferAck::Rejected),
        Err(TokenError::TransferRejected)
    );
    assert_eq!(
        ledger.transfer(ALICE, BOB, 10, 0, TransferAck::CallFailed),
        Err(TokenError::SafeTransferCheckFailed)
    );
    // a recipient without the callback, or one that trapped, is tolerated
    assert_eq!(ledger.transfer(ALICE, BOB, 10, 0, TransferAck::NotCallable), Ok(()));
    assert_eq!(ledger.transfer(ALICE, BOB, 10, 0, TransferAck::Trapped), Ok(()));
    assert_eq!(ledger.balance_of(BOB, 0), 20);
}

fn taxed_ledger() -> RebasingLedger {
    // one percent of every transfer goes to the protocol
    RebasingLedger::new(0, 0, 10_000, TREASURY, CONTROLLER, PROFIT_CONTROLLER)
}

#[test]
fn transfer_fee_goes_to_income() {
    let mut ledger = taxed_ledger();
    ledger.mint(ALICE, 100_000, 0).unwrap();
    assert_eq!(ledger.transfer(ALICE, BOB, 1000, 0, TransferAck::Accepted), Ok(()));
    assert_eq!(ledger.balance_of(ALICE, 0), 99_000);
    assert_eq!(ledger.balance_of(BOB, 0), 990);
    assert_eq!(ledger.give_profit(PROFIT_CONTROLLER), Ok(10));
    assert_eq!(ledger.give_profit(PROFIT_CONTROLLER), Ok(0));
}

#[test]
fn fee_exempt_recipient_pays_nothing() {
    let mut ledger = taxed_ledger();
    ledger.mint(ALICE, 100_000, 0).unwrap();
    ledger.set_is_tax_free(BOB, true);
    assert!(ledger.is_tax_free(BOB));
    assert_eq!(ledger.transfer(ALICE, BOB, 1000, 0, TransferAck::Accepted), Ok(()));
    assert_eq!(ledger.balance_of(BOB, 0), 1000);
}

#[test]
fn tax_holiday_waives_fee_under_threshold() {
    let mut ledger = taxed_ledger();
    ledger.mint(ALICE, 100_000, 0).unwrap();
    ledger.set_account_debt(BOB, 5000);
    assert_eq!(ledger.account_debt(BOB), 5000);
    // balance below the threshold: no fee at all
    assert_eq!(ledger.transfer(ALICE, BOB, 1000, 0, TransferAck::Accepted), Ok(()));
    assert_eq!(ledger.balance_of(BOB, 0), 1000);
    // push the balance above the threshold: the excess is what gets taxed
    ledger.mint(BOB, 5000, 0).unwrap();
    assert_eq!(ledger.balance_of(BOB, 0), 6000);
    assert_eq!(ledger.transfer(ALICE, BOB, 1000, 0, TransferAck::Accepted), Ok(()));
    // fee is one percent of the 1000 above the threshold
    assert_eq!(ledger.balance_of(BOB, 0), 6990);
}

#[test]
fn allowance_lifecycle() {
    let mut ledger = untaxed_ledger();
    assert_eq!(ledger.allowance(ALICE, BOB), 0);
    assert_eq!(ledger.approve(ALICE, BOB, 50), Ok(()));
    assert_eq!(ledger.allowance(ALICE, BOB), 50);
    assert_eq!(ledger.increase_allowance(ALICE, BOB, 25), Ok(()));
    assert_eq!(ledger.allowance(ALICE, BOB), 75);
    assert_eq!(ledger.decrease_allowance(ALICE, BOB, 70), Ok(()));
    assert_eq!(ledger.allowance(ALICE, BOB), 5);
    assert_eq!(ledger.decrease_allowance(ALICE, BOB, 6), Err(TokenError::InsufficientAllowance));
    assert_eq!(ledger.approve(0, BOB, 1), Err(TokenError::ZeroSenderAddress));
    assert_eq!(ledger.approve(ALICE, 0, 1), Err(TokenError::ZeroRecipientAddress));
}

#[test]
fn transfer_from_spends_the_allowance() {
    let mut ledger = untaxed_ledger();
    ledger.mint(ALICE, E12, 0).unwrap();
    assert_eq!(
        ledger.transfer_from(BOB, ALICE, EVE, 10, 0, TransferAck::Accepted),
        Err(TokenError::InsufficientAllowance)
    );
    ledger.approve(ALICE, BOB, 10).unwrap();
    assert_eq!(ledger.transfer_from(BOB, ALICE, EVE, 10, 0, TransferAck::Accepted), Ok(()));
    assert_eq!(ledger.balance_of(EVE, 0), 10);
    assert_eq!(ledger.allowance(ALICE, BOB), 0);
}

#[test]
fn allowance_survives_a_failed_transfer() {
    let mut ledger = untaxed_ledger();
    ledger.mint(ALICE, 100, 0).unwrap();
    ledger.approve(ALICE, BOB, 102).unwrap();
    assert_eq!(
        ledger.transfer_from(BOB, ALICE, EVE, 101, 0, TransferAck::Accepted),
        Err(TokenError::InsufficientBalance)
    );
    assert_eq!(ledger.allowance(ALICE, BOB), 102);
    assert_eq!(ledger.balance_of(ALICE, 0), 100);
}

#[test]
fn negative_rate_shrinks_rated_balances_only() {
    let mut ledger = RebasingLedger::new(
        0,
        -ONE_PERCENT_E12,
        0,
        TREASURY,
        CONTROLLER,
        PROFIT_CONTROLLER,
    );
    ledger.mint(ALICE, 1000, 0).unwrap();
    ledger.mint(TREASURY, 1000, 0).unwrap();
    assert_eq!(ledger.balance_of(ALICE, 0), 1000);
    // one time unit later the index fell one percent
    assert_eq!(ledger.balance_of(ALICE, 1), 990);
    // the exempt treasury is untouched by the regime
    assert_eq!(ledger.balance_of(TREASURY, 1), 1000);
    // the stored raw units and their snapshot move only when the account is touched
    assert_eq!(ledger.undivided_taxed_balances(ALICE), 1000);
    assert_eq!(ledger.applied_denominator_e12(ALICE), E12);
}

#[test]
fn exemption_round_trip_preserves_the_balance() {
    let mut ledger = RebasingLedger::new(
        0,
        -ONE_PERCENT_E12,
        0,
        TREASURY,
        CONTROLLER,
        PROFIT_CONTROLLER,
    );
    ledger.mint(ALICE, 1000, 0).unwrap();
    let before = ledger.balance_of(ALICE, 1);
    assert_eq!(before, 990);
    assert_eq!(ledger.set_is_unrated(ALICE, true, 1), Ok(()));
    assert!(ledger.is_unrated(ALICE));
    let frozen = ledger.balance_of(ALICE, 1);
    assert_eq!(ledger.set_is_unrated(ALICE, false, 1), Ok(()));
    assert!(!ledger.is_unrated(ALICE));
    let after = ledger.balance_of(ALICE, 1);
    assert!(frozen <= before);
    assert!(after <= before);
    assert!(before - after <= 1);
    assert_eq!(after, 990);
}

#[test]
fn switching_the_treasury_itself_does_nothing() {
    let mut ledger = untaxed_ledger();
    assert_eq!(ledger.set_is_unrated(TREASURY, false, 0), Ok(()));
    assert!(ledger.is_unrated(TREASURY));
}

#[test]
fn rebasing_residue_is_collectible_tax() {
    let mut ledger = RebasingLedger::new(
        0,
        -ONE_PERCENT_E12,
        0,
        TREASURY,
        CONTROLLER,
        PROFIT_CONTROLLER,
    );
    ledger.mint(ALICE, 1000, 0).unwrap();
    // freezing at the fallen index realizes the ten units the holder lost
    ledger.set_is_unrated(ALICE, true, 1).unwrap();
    assert_eq!(ledger.collect_tax(1), Ok(10));
    assert_eq!(ledger.balance_of(TREASURY, 1), 10);
    assert_eq!(ledger.total_supply(), 1010);
    // a second collection finds nothing
    assert_eq!(ledger.collect_tax(1), Ok(0));
}

#[test]
fn give_profit_requires_the_profit_controller() {
    let mut ledger = taxed_ledger();
    ledger.mint(ALICE, 100_000, 0).unwrap();
    ledger.transfer(ALICE, BOB, 1000, 0, TransferAck::Accepted).unwrap();
    assert_eq!(ledger.give_profit(ALICE), Err(stable_coin_core::profit::PGeneratingError::Controller));
    assert_eq!(ledger.give_profit(PROFIT_CONTROLLER), Ok(10));
}

#[test]
fn be_controlled_requires_the_controller() {
    let mut ledger = untaxed_ledger();
    assert_eq!(
        ledger.be_controlled(ALICE, ONE_PERCENT_E12, 0),
        Err(TokenError::NotController)
    );
    assert_eq!(ledger.be_controlled(CONTROLLER, ONE_PERCENT_E12, 0), Ok(()));
    ledger.mint(ALICE, 1000, 0).unwrap();
    // the new rate compounds from the moment it was set
    assert_eq!(ledger.balance_of(ALICE, 1), 1010);
}

#[test]
fn controller_address_can_move() {
    let mut ledger = untaxed_ledger();
    assert_eq!(ledger.set_controller_address(EVE), Ok(()));
    assert_eq!(ledger.be_controlled(CONTROLLER, 5, 0), Err(TokenError::NotController));
    assert_eq!(ledger.be_controlled(EVE, 5, 0), Ok(()));
    assert_eq!(ledger.set_profit_controller_address(EVE), Ok(()));
    assert_eq!(ledger.give_profit(EVE), Ok(0));
}

#[test]
fn change_treassury_swaps_the_exempt_side() {
    let mut ledger = untaxed_ledger();
    ledger.mint(BOB, 700, 0).unwrap();
    assert_eq!(ledger.change_treassury(BOB, 0), Ok(()));
    assert!(ledger.is_unrated(BOB));
    assert!(!ledger.is_unrated(TREASURY));
    assert_eq!(ledger.balance_of(BOB, 0), 700);
    // moving it onto itself does nothing
    assert_eq!(ledger.change_treassury(BOB, 0), Ok(()));
    assert!(ledger.is_unrated(BOB));
}

#[test]
fn update_current_denominator_reports_the_accrued_index() {
    let mut ledger = RebasingLedger::new(
        0,
        ONE_PERCENT_E12,
        0,
        TREASURY,
        CONTROLLER,
        PROFIT_CONTROLLER,
    );
    assert_eq!(ledger.update_current_denominator_e12(1), 1_010_000_000_000);
    assert_eq!(ledger.update_current_denominator_e12(1), 1_010_000_000_000);
}

#[test]
fn mint_at_the_amount_limit() {
    let mut ledger = untaxed_ledger();
    let limit: u128 = u64::MAX as u128;
    assert_eq!(ledger.mint(ALICE, limit, 0), Ok(()));
    assert_eq!(ledger.balance_of(ALICE, 0), limit);
    assert_eq!(ledger.total_supply(), limit);
    assert_eq!(ledger.burn(ALICE, limit, 0), Ok(()));
    assert_eq!(ledger.total_supply(), 0);
}

#[test]
fn supply_leads_stored_balances_by_the_income() {
    let mut ledger = RebasingLedger::new(
        0,
        -ONE_PERCENT_E12,
        10_000,
        TREASURY,
        CONTROLLER,
        PROFIT_CONTROLLER,
    );
    let gap = |l: &RebasingLedger| {
        l.total_supply() as i128 - l.unrated_supply() as i128 - l.rated_supply() as i128
    };
    assert_eq!(gap(&ledger), 0);
    ledger.mint(ALICE, 100_000, 0).unwrap();
    assert_eq!(gap(&ledger), ledger.income);
    // the one-percent fee lands in the income counter, not in any balance
    ledger.transfer(ALICE, BOB, 1000, 0, TransferAck::Accepted).unwrap();
    assert_eq!(gap(&ledger), ledger.income);
    assert_eq!(ledger.income, 10);
    // a touch one tick later realizes the rebasing loss as income too
    ledger.burn(BOB, 100, 1).unwrap();
    assert_eq!(gap(&ledger), ledger.income);
    ledger.set_is_unrated(ALICE, true, 1).unwrap();
    assert_eq!(gap(&ledger), ledger.income);
    // collecting mints exactly that gap to the treasury
    let gap_before = gap(&ledger);
    assert_eq!(ledger.collect_tax(1), Ok(gap_before as u128));
}

#[test]
fn fee_fraction_of_one_takes_everything() {
    let mut ledger = RebasingLedger::new(0, 0, E6, TREASURY, CONTROLLER, PROFIT_CONTROLLER);
    ledger.mint(ALICE, 1000, 0).unwrap();
    assert_eq!(ledger.transfer(ALICE, BOB, 100, 0, TransferAck::Accepted), Ok(()));
    assert_eq!(ledger.balance_of(BOB, 0), 0);
    assert_eq!(ledger.give_profit(PROFIT_CONTROLLER), Ok(100));
}
