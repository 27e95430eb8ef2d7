use perfx::{
    initialize_market, next_funding_rate, update_funding_rate, MarketAccount, FUNDING_INTERVAL,
    FUNDING_RATE_STEP, FUNDING_SCALE, MARGIN_DIVISOR, PRICE_SCALE,
};

fn label(text: &str) -> [u8; 32] {
    let mut name = [0u8; 32];
    name[..text.len()].copy_from_slice(text.as_bytes());
    name
}

#[test]
fn a_new_market_has_no_funding_rate() {
    let market = initialize_market(label("SOL-PERP"), 10_000, 1_700_000_000);
    assert_eq!(
        market,
        MarketAccount {
            name: label("SOL-PERP"),
            oracle_price: 10_000,
            funding_rate: 0,
            last_funding_time: 1_700_000_000,
        }
    );
    let market = initialize_market([0xffu8; 32], u64::MAX, i64::MIN);
    assert_eq!(market.name, [0xffu8; 32]);
    assert_eq!(market.oracle_price, u64::MAX);
    assert_eq!(market.funding_rate, 0);
    assert_eq!(market.last_funding_time, i64::MIN);
}

#[test]
fn the_funding_rate_turns_against_a_positive_rate() {
    assert_eq!(next_funding_rate(0), 100);
    assert_eq!(next_funding_rate(100), -100);
    assert_eq!(next_funding_rate(-100), 100);
    assert_eq!(next_funding_rate(1), -100);
    assert_eq!(next_funding_rate(-1), 100);
    assert_eq!(next_funding_rate(i64::MAX), -100);
    assert_eq!(next_funding_rate(i64::MIN), 100);
}

#[test]
fn update_funding_rate_toggles_and_stamps() {
    let mut market = initialize_market(label("BTC-PERP"), 65_000_0000, 1_000);
    assert_eq!(update_funding_rate(&mut market, 3, 1_001), Ok(()));
    assert_eq!(market.funding_rate, 100);
    assert_eq!(market.last_funding_time, 1_001);
    assert_eq!(update_funding_rate(&mut market, 3, 1_001), Ok(()));
    assert_eq!(market.funding_rate, -100);
    assert_eq!(market.last_funding_time, 1_001);
    assert_eq!(update_funding_rate(&mut market, 3, 9_999), Ok(()));
    assert_eq!(market.funding_rate, 100);
    assert_eq!(market.last_funding_time, 9_999);
    // the stamp follows the time given, also backwards
    assert_eq!(update_funding_rate(&mut market, 3, -5), Ok(()));
    assert_eq!(market.funding_rate, -100);
    assert_eq!(market.last_funding_time, -5);
    assert_eq!(market.name, label("BTC-PERP"));
    assert_eq!(market.oracle_price, 65_000_0000);
}

#[test]
fn update_funding_rate_does_not_depend_on_the_market_index() {
    let mut first = initialize_market(label("A"), 1, 0);
    let mut second = first;
    assert_eq!(update_funding_rate(&mut first, 0, 50), Ok(()));
    assert_eq!(update_funding_rate(&mut second, u64::MAX, 50), Ok(()));
    assert_eq!(first, second);
}

#[test]
fn the_scales_of_the_fixed_point_values() {
    assert_eq!(PRICE_SCALE, 10_000);
    assert_eq!(MARGIN_DIVISOR, 10);
    assert_eq!(FUNDING_SCALE, 1_000_000);
    assert_eq!(FUNDING_INTERVAL, 3_600);
    assert_eq!(FUNDING_RATE_STEP, 100);
}
