use swaps::currency::Balances;
use swaps::currency::Currency;
use swaps::currency::CurrencyError;
use swaps::math::mul_div;
use swaps::math::mul_div_fraction;
use swaps::swap::Error;
use swaps::swap::Module;

#[test]
fn input_price_of_the_worked_example() {
    assert_eq!(Module::get_input_price(300, 420, 42), Ok(17));
    assert_eq!(Module::get_input_price(20, 42, 420), Ok(135));
}

#[test]
fn output_price_of_the_worked_example() {
    assert_eq!(Module::get_output_price(17, 420, 42), Ok(287));
    assert_eq!(Module::get_output_price(135, 42, 420), Ok(20));
    assert_eq!(Module::get_output_price(41, 420, 42), Ok(17272));
}

#[test]
fn input_price_without_a_divisor_is_refused() {
    assert_eq!(Module::get_input_price(0, 0, 42), Err(Error::DivisionByZero));
    assert_eq!(Module::get_input_price(0, 0, 0), Err(Error::DivisionByZero));
    assert_eq!(Module::get_input_price(0, 5, 7), Ok(0));
    // An empty input reserve sells the whole output reserve.
    assert_eq!(Module::get_input_price(1, 0, 42), Ok(42));
}

#[test]
fn output_price_of_the_whole_reserve_is_refused() {
    assert_eq!(Module::get_output_price(42, 420, 42), Err(Error::PoolDrained));
    assert_eq!(Module::get_output_price(43, 420, 42), Err(Error::PoolDrained));
    assert_eq!(Module::get_output_price(0, 420, 0), Err(Error::PoolDrained));
    assert_eq!(Module::get_output_price(0, 420, 42), Ok(1));
}

#[test]
fn output_price_beyond_the_range_is_refused() {
    assert_eq!(Module::get_output_price(1, u64::MAX, 2), Err(Error::Overflow));
    assert_eq!(Module::get_output_price(u64::MAX - 1, 1, u64::MAX), Err(Error::Overflow));
    assert_eq!(Module::get_output_price(1, u64::MAX, u64::MAX), Ok(2));
}

#[test]
fn prices_are_exact_at_the_edge_of_the_range() {
    assert_eq!(Module::get_input_price(u64::MAX, u64::MAX, u64::MAX), Ok(9209516195036766630));
    assert_eq!(Module::get_input_price(1, u64::MAX, u64::MAX), Ok(0));
    assert_eq!(Module::get_input_price(u64::MAX, 1, u64::MAX), Ok(18446744073709551613));
    assert_eq!(Module::get_input_price(u64::MAX, 0, u64::MAX), Ok(u64::MAX));
}

#[test]
fn input_price_does_not_fall_when_more_is_sold() {
    let mut last = 0;
    for amount in 0..2000u64 {
        let price = Module::get_input_price(amount, 420, 42).unwrap();
        assert!(price >= last);
        assert!(price < 42);
        last = price;
    }
    assert_eq!(last, 34);
}

#[test]
fn output_price_does_not_fall_when_more_is_bought() {
    let mut last = 0;
    for amount in 0..42u64 {
        let price = Module::get_output_price(amount, 420, 42).unwrap();
        assert!(price >= last);
        last = price;
    }
    assert_eq!(last, 17272);
}

#[test]
fn round_trip_never_gains() {
    for amount in 1..500u64 {
        let bought = Module::get_input_price(amount, 1000, 1000).unwrap();
        let back = Module::get_input_price(bought, 1000 - bought, 1000 + amount).unwrap();
        assert!(back < amount);
    }
    assert_eq!(Module::get_input_price(1000, 1000, 1000), Ok(499));
    assert_eq!(Module::get_input_price(499, 501, 2000), Ok(996));
}

#[test]
fn trade_never_lowers_the_product_of_the_reserves() {
    let bought = Module::get_input_price(300, 420, 42).unwrap() as u128;
    assert!((420 + 300) * (42 - bought) >= 420 * 42);
    let paid = Module::get_output_price(17, 420, 42).unwrap() as u128;
    assert!((420 + paid) * (42 - 17) >= 420 * 42);
}

#[test]
fn convert_clamps_and_unconvert_is_exact() {
    assert_eq!(Module::convert(0), 0);
    assert_eq!(Module::convert(5), 5);
    assert_eq!(Module::convert(u64::MAX as u128), u64::MAX);
    assert_eq!(Module::convert(u64::MAX as u128 + 1), u64::MAX);
    assert_eq!(Module::convert(u128::MAX), u64::MAX);
    assert_eq!(Module::unconvert(0), 0);
    assert_eq!(Module::unconvert(u64::MAX), u64::MAX as u128);
}

#[test]
fn mul_div_is_exact_for_wide_products() {
    assert_eq!(mul_div(300 * 997, 42, 420 * 1000 + 300 * 997), Some(17));
    assert_eq!(mul_div(1 << 80, u64::MAX, 1 << 80), Some(u64::MAX));
    assert_eq!(mul_div(1 << 80, u64::MAX, (1 << 80) - 1), Some(u64::MAX));
    assert_eq!(mul_div(1 << 80, u64::MAX, 1 << 79), None);
    assert_eq!(mul_div(1 << 80, u64::MAX, 1), None);
    assert_eq!(mul_div(1 << 80, 3, 1 << 79), Some(6));
    assert_eq!(mul_div(0, u64::MAX, 1), Some(0));
    assert_eq!(mul_div(7, 0, 3), Some(0));
    assert_eq!(mul_div(u64::MAX as u128, u64::MAX, u64::MAX as u128 - 1), None);
    assert_eq!(mul_div(5, 1 << 32, 2), Some(10737418240));
    assert_eq!(mul_div((1 << 80) - 1, (1 << 63) + 12345, (1 << 80) - 1), Some((1 << 63) + 12345));
    assert_eq!(mul_div_fraction(2, 9, 3), 6);
    assert_eq!(mul_div_fraction(1 << 80, u64::MAX, 1 << 80), u64::MAX);
    assert_eq!(mul_div_fraction((1 << 80) - 1, u64::MAX, 1 << 80), u64::MAX - 1);
}

#[test]
fn currency_moves_exactly_the_amount() {
    let mut balances = Balances::new();
    balances.make_free_balance_be(1, 100);
    assert_eq!(balances.free_balance(1), 100);
    assert_eq!(balances.free_balance(2), 0);
    assert_eq!(balances.transfer(1, 2, 30, true), Ok(()));
    assert_eq!(balances.free_balance(1), 70);
    assert_eq!(balances.free_balance(2), 30);
    assert_eq!(balances.transfer(1, 1, 70, false), Ok(()));
    assert_eq!(balances.free_balance(1), 70);
}

#[test]
fn currency_refuses_what_it_cannot_move() {
    let mut balances = Balances::new();
    balances.make_free_balance_be(1, 100);
    balances.make_free_balance_be(2, u128::MAX);
    assert_eq!(balances.transfer(1, 2, 101, false), Err(CurrencyError::InsufficientBalance));
    assert_eq!(balances.transfer(1, 3, 100, true), Err(CurrencyError::KeepAlive));
    assert_eq!(balances.transfer(1, 2, 1, false), Err(CurrencyError::Overflow));
    assert_eq!(balances.free_balance(1), 100);
    assert_eq!(balances.free_balance(2), u128::MAX);
    assert_eq!(balances.free_balance(3), 0);
    assert_eq!(balances.transfer(1, 3, 99, true), Ok(()));
    assert_eq!(balances.transfer(1, 3, 1, false), Ok(()));
    assert_eq!(balances.free_balance(1), 0);
    assert_eq!(balances.free_balance(3), 100);
}
