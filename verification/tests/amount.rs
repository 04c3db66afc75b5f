use zcash_client::amount::{required_amount, AMOUNT_SCALE, MAX_SCALED_REQUEST};

#[test]
fn exact_conversion_at_a_round_price() {
    // 100 external units at 50.000 per coin: two coins' worth of units.
    assert_eq!(required_amount(100, 50_000), Some(2_000_000_000_000_000_000));
}

#[test]
fn conversion_rounds_down() {
    // 1 external unit at 3.000 per coin: 10^21 / 3000, rounded down.
    assert_eq!(required_amount(1, 3_000), Some(333_333_333_333_333_333));
    // 7 at 2.000: 3.5 coins.
    assert_eq!(required_amount(7, 2_000), Some(3_500_000_000_000_000_000));
}

#[test]
fn zero_requested_needs_nothing() {
    assert_eq!(required_amount(0, 50_000), Some(0));
}

#[test]
fn zero_price_is_refused() {
    assert_eq!(required_amount(100, 0), None);
    assert_eq!(required_amount(0, 0), None);
}

#[test]
fn amounts_beyond_u64_are_refused() {
    // 10^6 external units at price 0.001 demand 10^27 units.
    assert_eq!(required_amount(1_000_000, 1), None);
    // Requests beyond the scaled range are refused, whatever the price.
    assert_eq!(required_amount(u64::MAX, u64::MAX), None);
    let beyond = (MAX_SCALED_REQUEST + 1) as u64;
    assert_eq!(required_amount(beyond, u64::MAX), None);
}

#[test]
fn scale_constants_are_consistent() {
    assert_eq!(AMOUNT_SCALE, 1_000_000_000_000_000_000_000);
    assert_eq!(MAX_SCALED_REQUEST, u128::MAX / AMOUNT_SCALE);
}
