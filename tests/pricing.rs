use tfn_test_dex::errors::DexError;
use tfn_test_dex::helpers::HelpersModule;
use tfn_test_dex::swap::SwapModule;

#[test]
fn quote_scales_by_reserve_ratio() {
    assert_eq!(HelpersModule::quote(10, 100, 200), Ok(20));
    assert_eq!(HelpersModule::quote(7, 3, 2), Ok(4));
    assert_eq!(HelpersModule::quote(100, 1000, 1000), Ok(100));
}

#[test]
fn quote_with_empty_reserve_fails() {
    assert_eq!(HelpersModule::quote(10, 0, 200), Err(DexError::ArithmeticFailure));
}

#[test]
fn amount_out_no_fee_exact() {
    assert_eq!(HelpersModule::get_amount_out_no_fee(100, 1000, 1000), Ok(90));
    assert_eq!(HelpersModule::get_amount_out_no_fee(0, 1000, 1000), Ok(0));
    assert_eq!(HelpersModule::get_amount_out_no_fee(10, 0, 0), Ok(0));
}

#[test]
fn amount_out_no_fee_stays_below_reserve_and_grows() {
    let mut last = 0;
    for amount_in in [0u128, 1, 10, 100, 1000, 1_000_000, 1_000_000_000_000] {
        let out = HelpersModule::get_amount_out_no_fee(amount_in, 1000, 1000).unwrap();
        assert!(out < 1000);
        assert!(out >= last);
        last = out;
    }
}

#[test]
fn amount_out_no_fee_overflow_fails() {
    assert_eq!(HelpersModule::get_amount_out_no_fee(u128::MAX, 1, 2), Err(DexError::ArithmeticFailure));
    assert_eq!(HelpersModule::get_amount_out_no_fee(0, 0, 5), Err(DexError::ArithmeticFailure));
}

#[test]
fn amount_in_no_fee_rounds_up() {
    assert_eq!(HelpersModule::get_amount_in_no_fee(90, 1000, 1000), Ok(99));
    assert_eq!(HelpersModule::get_amount_in_no_fee(0, 1000, 1000), Ok(1));
    assert_eq!(HelpersModule::get_amount_in_no_fee(500, 1000, 1000), Ok(1001));
}

#[test]
fn amount_in_no_fee_at_reserve_fails() {
    assert_eq!(HelpersModule::get_amount_in_no_fee(1000, 1000, 1000), Err(DexError::ArithmeticFailure));
    assert_eq!(HelpersModule::get_amount_in_no_fee(1001, 1000, 1000), Err(DexError::ArithmeticFailure));
}

#[test]
fn round_trip_in_then_out_never_favours_trader() {
    let needed = HelpersModule::get_amount_in_no_fee(90, 1000, 1000).unwrap();
    assert_eq!(needed, 99);
    assert_eq!(HelpersModule::get_amount_out_no_fee(needed, 1000, 1000), Ok(90));
}

#[test]
fn round_trip_out_then_in_when_rounding_loss_fits() {
    // 10 * 1000 = 9 * 1010 + 910, and 9 + 910 <= 1000
    let out = HelpersModule::get_amount_out_no_fee(10, 1000, 1000).unwrap();
    assert_eq!(out, 9);
    assert_eq!(HelpersModule::get_amount_in_no_fee(out, 1000, 1000), Ok(10));
}

#[test]
fn round_trip_out_then_in_when_rounding_loss_exceeds_reserve() {
    // 100 * 1000 = 90 * 1100 + 1000, and 90 + 1000 > 1000
    let out = HelpersModule::get_amount_out_no_fee(100, 1000, 1000).unwrap();
    assert_eq!(out, 90);
    assert_eq!(HelpersModule::get_amount_in_no_fee(out, 1000, 1000), Ok(99));
}

#[test]
fn amount_out_with_fee_exact() {
    assert_eq!(HelpersModule::get_amount_out(100, 1000, 1000, true, 500), Ok(90));
    assert_eq!(HelpersModule::get_amount_out(100, 1000, 1000, false, 500), Ok(89));
    assert_eq!(HelpersModule::get_amount_out(1000, 1000, 1000, true, 0), Ok(500));
}

#[test]
fn amount_in_with_fee_exact() {
    assert_eq!(HelpersModule::get_amount_in(90, 1000, 1000, true, 500), Ok(100));
    assert_eq!(HelpersModule::get_amount_in(90, 1000, 1000, false, 500), Ok(99));
    assert_eq!(HelpersModule::get_amount_in(1000, 1000, 1000, true, 500), Err(DexError::ArithmeticFailure));
}

#[test]
fn fee_split_input_side() {
    assert_eq!(HelpersModule::get_fee_amounts(1000, true, 300, 200), Ok((3, 2, 5)));
    assert_eq!(HelpersModule::get_fee_amounts(0, true, 300, 200), Ok((0, 0, 0)));
}

#[test]
fn fee_split_input_side_parts_round_below_total() {
    // remainders 80000 + 60000 reach MAX_PERCENT: the parts add up to one less than the total
    assert_eq!(HelpersModule::get_fee_amounts(2, true, 40000, 30000), Ok((0, 0, 1)));
}

#[test]
fn fee_split_gross_up_parts_sum_to_total() {
    assert_eq!(HelpersModule::get_fee_amounts(1000, false, 300, 200), Ok((3, 2, 5)));
    let (lp, owner, total) = HelpersModule::get_fee_amounts(123_456_789, false, 333, 777).unwrap();
    assert_eq!(lp + owner, total);
    assert_eq!(total, 123_456_789u128 * 1110 / (100_000 - 1110));
    assert_eq!(lp, total * 333 / 1110);
}

#[test]
fn fee_split_gross_up_without_fee_fails() {
    assert_eq!(HelpersModule::get_fee_amounts(1000, false, 0, 0), Err(DexError::ArithmeticFailure));
}

#[test]
fn do_swap_fixed_input_fee_on_output() {
    // 100 in against (1000, 1000): 90 out before fee, fee 0 at 0.5%
    assert_eq!(SwapModule::do_swap_fixed_input(100, 1000, 1000, false, 300, 200), Ok((90, 1100, 910, 0)));
    // 10000 in against (100000, 100000): 9090 out, lp fee 27, owner fee 18
    assert_eq!(
        SwapModule::do_swap_fixed_input(10000, 100000, 100000, false, 300, 200),
        Ok((9090 - 45, 110000, 100000 - 9090 + 27, 18))
    );
}

#[test]
fn do_swap_fixed_input_fee_on_input() {
    // fee 50 of 10000 (lp 30, owner 20); 9950 goes in: 9950 * 100000 / 109950 = 9049
    assert_eq!(
        SwapModule::do_swap_fixed_input(10000, 100000, 100000, true, 300, 200),
        Ok((9049, 100000 + 9950 + 30, 100000 - 9049, 20))
    );
}

#[test]
fn do_swap_fixed_output_fee_on_input() {
    // 9049 out of (100000, 100000) takes 9950 before fee; fee 9950 * 500 / 99500 = 50 (lp 30, owner 20)
    assert_eq!(
        SwapModule::do_swap_fixed_output(9049, 100000, 100000, true, 300, 200),
        Ok((10000, 100000 + 9950 + 30, 100000 - 9049, 20))
    );
}

#[test]
fn do_swap_fixed_output_fee_on_output() {
    // 9045 wanted: fee 9045 * 500 / 99500 = 45 (lp 27, owner 18); 9090 out of the pool costs 9998 + 1
    assert_eq!(
        SwapModule::do_swap_fixed_output(9045, 100000, 100000, false, 300, 200),
        Ok((9999, 109999, 100000 - 9090 + 27, 18))
    );
}

#[test]
fn do_swap_keeps_product() {
    for (amount, fee_in) in [(1u128, true), (77, false), (5000, true), (99999, false)] {
        let (_, a, b, _) = SwapModule::do_swap_fixed_input(amount, 100000, 250000, fee_in, 300, 200).unwrap();
        assert!(a * b >= 100000 * 250000);
        let (_, c, d, _) = SwapModule::do_swap_fixed_output(amount, 100000, 250000, fee_in, 300, 200).unwrap();
        assert!(c * d >= 100000 * 250000);
    }
}
