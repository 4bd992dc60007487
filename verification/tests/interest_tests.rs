use stable_coin_core::interest::{IndexError, InterestIndex};
use stable_coin_core::E12;

const ONE_PERCENT_E12: i128 = 10_000_000_000;

#[test]
fn accrual_one_percent_per_unit() {
    let mut index = InterestIndex::new(0, ONE_PERCENT_E12);
    assert_eq!(index.index_e12, E12);
    let after = index.accrue(1);
    assert_eq!(after, 1_010_000_000_000);
    assert_eq!(index.last_timestamp, 1);
}

#[test]
fn peek_matches_accrue_without_mutation() {
    let mut index = InterestIndex::new(0, ONE_PERCENT_E12);
    let peeked = index.peek(1);
    assert_eq!(index.index_e12, E12);
    let accrued = index.accrue(1);
    assert_eq!(peeked, accrued);
}

#[test]
fn accrue_twice_same_tick_is_idempotent() {
    let mut index = InterestIndex::new(0, ONE_PERCENT_E12);
    let first = index.accrue(5);
    let second = index.accrue(5);
    assert_eq!(first, second);
    assert_eq!(index.index_e12, first);
}

#[test]
fn nonnegative_rate_never_decreases_index() {
    let mut index = InterestIndex::new(0, ONE_PERCENT_E12);
    let mut previous = index.index_e12;
    for now in [1u64, 2, 2, 7, 100] {
        let current = index.accrue(now);
        assert!(current >= previous);
        previous = current;
    }
}

#[test]
fn negative_rate_decreases_but_never_reaches_zero() {
    let mut index = InterestIndex::new(0, -ONE_PERCENT_E12);
    let mut previous = index.index_e12;
    for now in [1u64, 10, 50, 99, 101, 5000] {
        let current = index.accrue(now);
        assert!(current <= previous);
        assert!(current >= 1);
        previous = current;
    }
    // a rate that wipes out far more than the whole index floors at one raw unit
    let mut crashing = InterestIndex::new(0, -2 * (E12 as i128));
    let floored = crashing.accrue(1);
    assert_eq!(floored, 1);
}

#[test]
fn feed_unavailable_leaves_state_untouched() {
    let mut index = InterestIndex::new(0, ONE_PERCENT_E12);
    let r = index.accrue_with_feed(3, None);
    assert_eq!(r, Err(IndexError::FeedUnavailable));
    assert_eq!(index.index_e12, E12);
    assert_eq!(index.last_timestamp, 0);
    assert_eq!(index.rate_e12, ONE_PERCENT_E12);
}

#[test]
fn feed_rate_applies_to_whole_elapsed_interval() {
    let mut index = InterestIndex::new(0, 0);
    let r = index.accrue_with_feed(1, Some(ONE_PERCENT_E12));
    assert_eq!(r, Ok(1_010_000_000_000));
    assert_eq!(index.rate_e12, ONE_PERCENT_E12);
}

#[test]
fn no_elapsed_time_changes_nothing() {
    let mut index = InterestIndex::new(10, ONE_PERCENT_E12);
    let r = index.accrue(10);
    assert_eq!(r, E12);
    let r2 = index.accrue(4);
    assert_eq!(r2, E12);
    assert_eq!(index.last_timestamp, 10);
}
