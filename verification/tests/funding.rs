use anchor_lang::prelude::Pubkey;
use perfx::{
    funding_amount, funding_is_due, holder_pays, settle_funding_payments, update_funding_rate,
    ErrorCode, MarketAccount, Position, UserAccount,
};

fn holder(collateral: u64, positions: Vec<Position>) -> UserAccount {
    UserAccount { authority: Pubkey::new_from_array([5u8; 32]), collateral, positions }
}

fn held(market_index: u64, size: i64, entry_price: u64) -> Position {
    Position { market_index, size, entry_price }
}

fn market_with(funding_rate: i64, last_funding_time: i64) -> MarketAccount {
    MarketAccount { name: [0u8; 32], oracle_price: 10_000, funding_rate, last_funding_time }
}

#[test]
fn settle_before_the_hour_does_nothing() {
    let market = market_with(100, 1_000);
    let mut account = holder(1_000, vec![held(1, 1_000_000, 10_000)]);
    let before = account.clone();
    assert_eq!(settle_funding_payments(&market, &mut account, 1, 1_000), Ok(()));
    assert_eq!(account, before);
    assert_eq!(settle_funding_payments(&market, &mut account, 1, 4_599), Ok(()));
    assert_eq!(account, before);
    assert_eq!(settle_funding_payments(&market, &mut account, 1, 999), Ok(()));
    assert_eq!(account, before);
    assert_eq!(settle_funding_payments(&market, &mut account, 1, i64::MIN), Ok(()));
    assert_eq!(account, before);
}

#[test]
fn settle_at_the_hour_takes_effect() {
    let market = market_with(100, 1_000);
    let mut account = holder(1_000, vec![held(1, 1_000_000, 10_000)]);
    assert_eq!(settle_funding_payments(&market, &mut account, 1, 4_600), Ok(()));
    // notional 1000000, payment 1000000 * 100 / 1000000 = 100
    assert_eq!(account.collateral, 900);
    assert_eq!(account.positions, vec![held(1, 1_000_000, 10_000)]);
}

#[test]
fn settle_twice_within_the_hour_moves_nothing_twice() {
    let market = market_with(100, 1_000);
    let mut account = holder(1_000, vec![held(1, 1_000_000, 10_000)]);
    assert_eq!(settle_funding_payments(&market, &mut account, 1, 2_000), Ok(()));
    assert_eq!(account.collateral, 1_000);
    assert_eq!(settle_funding_payments(&market, &mut account, 1, 2_500), Ok(()));
    assert_eq!(account.collateral, 1_000);
}

#[test]
fn settle_twice_past_the_hour_settles_twice() {
    let market = market_with(100, 1_000);
    let mut payer = holder(1_000, vec![held(1, 1_000_000, 10_000)]);
    assert_eq!(settle_funding_payments(&market, &mut payer, 1, 5_000), Ok(()));
    assert_eq!(payer.collateral, 900);
    assert_eq!(settle_funding_payments(&market, &mut payer, 1, 5_000), Ok(()));
    assert_eq!(payer.collateral, 800);
    assert_eq!(settle_funding_payments(&market, &mut payer, 1, 5_001), Ok(()));
    assert_eq!(payer.collateral, 700);

    let mut receiver = holder(1_000, vec![held(1, -1_000_000, 10_000)]);
    assert_eq!(settle_funding_payments(&market, &mut receiver, 1, 5_000), Ok(()));
    assert_eq!(receiver.collateral, 1_100);
    assert_eq!(settle_funding_payments(&market, &mut receiver, 1, 5_000), Ok(()));
    assert_eq!(receiver.collateral, 1_200);

    let mut poor = holder(150, vec![held(1, 1_000_000, 10_000)]);
    assert_eq!(settle_funding_payments(&market, &mut poor, 1, 5_000), Ok(()));
    assert_eq!(poor.collateral, 50);
    assert_eq!(settle_funding_payments(&market, &mut poor, 1, 5_000), Ok(()));
    assert_eq!(poor.collateral, 0);
}

#[test]
fn settle_after_a_rate_update_waits_another_hour() {
    let mut market = market_with(100, 1_000);
    let mut account = holder(1_000, vec![held(1, 1_000_000, 10_000)]);
    assert_eq!(settle_funding_payments(&market, &mut account, 1, 4_600), Ok(()));
    assert_eq!(account.collateral, 900);
    assert_eq!(update_funding_rate(&mut market, 1, 4_600), Ok(()));
    assert_eq!(market.funding_rate, -100);
    assert_eq!(settle_funding_payments(&market, &mut account, 1, 8_199), Ok(()));
    assert_eq!(account.collateral, 900);
    // now the long receives
    assert_eq!(settle_funding_payments(&market, &mut account, 1, 8_200), Ok(()));
    assert_eq!(account.collateral, 1_000);
}

#[test]
fn settle_without_a_position_does_nothing() {
    let market = market_with(100, 0);
    let mut account = holder(1_000, vec![held(1, 1_000_000, 10_000)]);
    let before = account.clone();
    assert_eq!(settle_funding_payments(&market, &mut account, 2, 3_600), Ok(()));
    assert_eq!(account, before);
    let mut empty = holder(1_000, vec![]);
    assert_eq!(settle_funding_payments(&market, &mut empty, 1, 3_600), Ok(()));
    assert_eq!(empty.collateral, 1_000);
}

#[test]
fn settle_charges_the_side_that_the_rate_is_against() {
    // long, positive rate: pays
    let mut account = holder(1_000, vec![held(1, 1_000_000, 10_000)]);
    assert_eq!(settle_funding_payments(&market_with(100, 0), &mut account, 1, 3_600), Ok(()));
    assert_eq!(account.collateral, 900);
    // short, positive rate: receives
    let mut account = holder(1_000, vec![held(1, -1_000_000, 10_000)]);
    assert_eq!(settle_funding_payments(&market_with(100, 0), &mut account, 1, 3_600), Ok(()));
    assert_eq!(account.collateral, 1_100);
    // short, negative rate: pays
    let mut account = holder(1_000, vec![held(1, -1_000_000, 10_000)]);
    assert_eq!(settle_funding_payments(&market_with(-100, 0), &mut account, 1, 3_600), Ok(()));
    assert_eq!(account.collateral, 900);
    // long, negative rate: receives
    let mut account = holder(1_000, vec![held(1, 1_000_000, 10_000)]);
    assert_eq!(settle_funding_payments(&market_with(-100, 0), &mut account, 1, 3_600), Ok(()));
    assert_eq!(account.collateral, 1_100);
    // no rate: nothing moves
    let mut account = holder(1_000, vec![held(1, 1_000_000, 10_000)]);
    assert_eq!(settle_funding_payments(&market_with(0, 0), &mut account, 1, 3_600), Ok(()));
    assert_eq!(account.collateral, 1_000);
}

#[test]
fn settle_uses_the_entry_price_not_the_oracle_price() {
    let mut market = market_with(100, 0);
    market.oracle_price = 1;
    let mut account = holder(1_000, vec![held(1, 1_000_000, 20_000)]);
    assert_eq!(settle_funding_payments(&market, &mut account, 1, 3_600), Ok(()));
    // notional 2000000, payment 200
    assert_eq!(account.collateral, 800);
}

#[test]
fn settle_of_a_payment_that_truncates_to_zero_moves_nothing() {
    // notional 50 * 10000 / 10000 = 50, payment 50 * 100 / 1000000 = 0
    let mut account = holder(5, vec![held(1, -50, 10_000)]);
    assert_eq!(settle_funding_payments(&market_with(100, 0), &mut account, 1, 3_600), Ok(()));
    assert_eq!(account.collateral, 5);
    let mut account = holder(5, vec![held(1, 50, 10_000)]);
    assert_eq!(settle_funding_payments(&market_with(100, 0), &mut account, 1, 3_600), Ok(()));
    assert_eq!(account.collateral, 5);
}

#[test]
fn settle_clamps_a_payment_at_zero() {
    let mut account = holder(5, vec![held(1, 1_000_000, 10_000)]);
    assert_eq!(settle_funding_payments(&market_with(100, 0), &mut account, 1, 3_600), Ok(()));
    assert_eq!(account.collateral, 0);
    assert_eq!(account.positions, vec![held(1, 1_000_000, 10_000)]);
    let mut account = holder(100, vec![held(1, 1_000_000, 10_000)]);
    assert_eq!(settle_funding_payments(&market_with(100, 0), &mut account, 1, 3_600), Ok(()));
    assert_eq!(account.collateral, 0);
    let mut account = holder(101, vec![held(1, 1_000_000, 10_000)]);
    assert_eq!(settle_funding_payments(&market_with(100, 0), &mut account, 1, 3_600), Ok(()));
    assert_eq!(account.collateral, 1);
}

#[test]
fn settle_refuses_a_receipt_beyond_the_range() {
    let mut account = holder(u64::MAX - 99, vec![held(1, -1_000_000, 10_000)]);
    let before = account.clone();
    assert_eq!(
        settle_funding_payments(&market_with(100, 0), &mut account, 1, 3_600),
        Err(ErrorCode::ArithmeticError)
    );
    assert_eq!(account, before);
    let mut account = holder(u64::MAX - 100, vec![held(1, -1_000_000, 10_000)]);
    assert_eq!(settle_funding_payments(&market_with(100, 0), &mut account, 1, 3_600), Ok(()));
    assert_eq!(account.collateral, u64::MAX);
}

#[test]
fn settle_with_a_payment_beyond_the_range() {
    // the short pays a negative rate: clamped whatever the size of the payment
    let mut account = holder(u64::MAX, vec![held(1, i64::MIN, u64::MAX)]);
    assert_eq!(
        settle_funding_payments(&market_with(i64::MIN, 0), &mut account, 1, 3_600),
        Ok(())
    );
    assert_eq!(account.collateral, 0);
    // the short receives a positive rate: refused
    let mut account = holder(0, vec![held(1, i64::MIN, u64::MAX)]);
    let before = account.clone();
    assert_eq!(
        settle_funding_payments(&market_with(i64::MAX, 0), &mut account, 1, 3_600),
        Err(ErrorCode::ArithmeticError)
    );
    assert_eq!(account, before);
}

#[test]
fn settle_finds_the_first_position_in_the_market() {
    let mut account =
        holder(1_000, vec![held(2, 5_000_000, 10_000), held(1, 1_000_000, 10_000)]);
    assert_eq!(settle_funding_payments(&market_with(100, 0), &mut account, 1, 3_600), Ok(()));
    assert_eq!(account.collateral, 900);
    assert_eq!(settle_funding_payments(&market_with(100, 0), &mut account, 2, 3_600), Ok(()));
    assert_eq!(account.collateral, 400);
}

#[test]
fn funding_gate_compares_times_without_wrapping() {
    assert!(!funding_is_due(&market_with(0, 1_000), 4_599));
    assert!(funding_is_due(&market_with(0, 1_000), 4_600));
    assert!(funding_is_due(&market_with(0, -3_600), 0));
    assert!(!funding_is_due(&market_with(0, -3_599), 0));
    assert!(funding_is_due(&market_with(0, i64::MIN), i64::MAX));
    assert!(!funding_is_due(&market_with(0, i64::MAX), i64::MIN));
    assert!(funding_is_due(&market_with(0, i64::MAX - 3_600), i64::MAX));
    assert!(!funding_is_due(&market_with(0, i64::MAX - 3_599), i64::MAX));
}

#[test]
fn funding_amount_is_notional_times_rate_scaled_down() {
    assert_eq!(funding_amount(&held(1, 1_000_000, 10_000), 100), Some(100));
    assert_eq!(funding_amount(&held(1, -1_000_000, 10_000), 100), Some(100));
    assert_eq!(funding_amount(&held(1, 1_000_000, 10_000), -100), Some(100));
    // 15000 * 100 / 1000000 = 1 (from 1.5), whatever the signs
    assert_eq!(funding_amount(&held(1, 15_000, 10_000), 100), Some(1));
    assert_eq!(funding_amount(&held(1, 15_000, 10_000), -100), Some(1));
    assert_eq!(funding_amount(&held(1, -15_000, 10_000), -100), Some(1));
    // 9999 * 100 / 1000000 = 0
    assert_eq!(funding_amount(&held(1, 9_999, 10_000), 100), Some(0));
    // the notional is truncated first: 3 * 33333 / 10000 = 9, 9 * 1000000 / 1000000 = 9
    assert_eq!(funding_amount(&held(1, 3, 33_333), 1_000_000), Some(9));
    assert_eq!(funding_amount(&held(1, 0, 33_333), 1_000_000), Some(0));
    assert_eq!(funding_amount(&held(1, 5, 33_333), 0), Some(0));
}

#[test]
fn funding_amount_at_the_edge_of_the_range() {
    // notional 2^63 - 1, doubled: 2^64 - 2
    assert_eq!(funding_amount(&held(1, i64::MAX, 10_000), 2_000_000), Some(u64::MAX - 1));
    // notional 2^63, doubled: 2^64
    assert_eq!(funding_amount(&held(1, i64::MIN, 10_000), 2_000_000), None);
    assert_eq!(funding_amount(&held(1, i64::MIN, 10_000), 1_999_999), Some(18_446_734_850_337_514_761));
    assert_eq!(funding_amount(&held(1, i64::MIN, u64::MAX), i64::MIN), None);
    assert_eq!(funding_amount(&held(1, i64::MAX, u64::MAX), i64::MAX), None);
    assert_eq!(funding_amount(&held(1, i64::MIN, u64::MAX), 1), None);
}

#[test]
fn holder_pays_when_size_and_rate_share_a_sign() {
    assert!(holder_pays(&held(1, 1, 1), 1));
    assert!(holder_pays(&held(1, -1, 1), -1));
    assert!(!holder_pays(&held(1, 1, 1), -1));
    assert!(!holder_pays(&held(1, -1, 1), 1));
    assert!(!holder_pays(&held(1, 1, 1), 0));
    assert!(!holder_pays(&held(1, -1, 1), 0));
    assert!(!holder_pays(&held(1, 0, 1), 1));
    assert!(!holder_pays(&held(1, 0, 1), -1));
}
