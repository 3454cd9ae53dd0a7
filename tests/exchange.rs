use tfn_test_dex::config::{Pair, PairState, Payment, State};
use tfn_test_dex::contract::{CreationOutcome, TFNTestDEXContract};
use tfn_test_dex::errors::DexError;
use tfn_test_dex::helpers::HelpersModule;
use tfn_test_dex::liquidity::LiquidityModule;
use tfn_test_dex::swap::SwapModule;

const OWNER: u64 = 1;
const CREATOR: u64 = 7;
const TRADER: u64 = 8;
const PLATFORM: u64 = 9;
const GOV: u64 = 100;
const X: u64 = 200;
const LP: u64 = 300;
const Y: u64 = 400;

fn pay(token: u64, amount: u128) -> Payment {
    Payment { token, amount }
}

fn dex_with_pair() -> TFNTestDEXContract {
    let mut dex = TFNTestDEXContract::init(OWNER, PLATFORM, GOV);
    let pending = dex.create_pair(CREATOR, true, GOV, X, 18, 300, 200, 50).unwrap();
    assert_eq!(dex.lp_token_issue_callback(pending, Some(LP)), CreationOutcome::Created { id: 0 });
    dex
}

fn dex_with_liquidity() -> TFNTestDEXContract {
    let mut dex = dex_with_pair();
    LiquidityModule::add_liquidity(&mut dex.config, CREATOR, &vec![pay(GOV, 1000), pay(X, 1000)]).unwrap();
    dex.set_pair_active(CREATOR, 0).unwrap();
    dex
}

fn pair0(dex: &TFNTestDEXContract) -> Pair {
    dex.config.pair(0).unwrap()
}

#[test]
fn init_registers_governance_token() {
    let dex = TFNTestDEXContract::init(OWNER, PLATFORM, GOV);
    assert_eq!(dex.config.get_state(), State::Active);
    assert_eq!(dex.config.get_base_tokens(), vec![GOV]);
    assert_eq!(dex.config.platform_sc, Some(PLATFORM));
    assert!(dex.config.get_pairs().is_empty());
    assert_eq!(dex.config.last_pair_id(), 0);
}

#[test]
fn create_pair_records_pair_after_issuance() {
    let dex = dex_with_pair();
    let p = pair0(&dex);
    assert_eq!(p.id, 0);
    assert_eq!(p.owner, CREATOR);
    assert_eq!(p.state, PairState::ActiveNoSwap);
    assert_eq!((p.token, p.base_token, p.lp_token), (X, GOV, LP));
    assert_eq!((p.lp_supply, p.liquidity_token, p.liquidity_base), (0, 0, 0));
    assert_eq!((p.lp_fee, p.owner_fee, p.decimals), (300, 200, 18));
    assert_eq!(dex.config.last_pair_id(), 1);
    assert_eq!(dex.config.get_pair_by_tickers(X, GOV), Some(p));
    assert_eq!(dex.config.get_pair_by_tickers(GOV, X), Some(p));
    assert_eq!(dex.config.get_pair_by_lp_token(LP), Some(p));
    assert_eq!(dex.config.get_pair_by_lp_token(X), None);
    assert_eq!(dex.config.get_pair_by_tickers(GOV, Y), None);
}

#[test]
fn failed_issuance_refunds_creator() {
    let mut dex = TFNTestDEXContract::init(OWNER, PLATFORM, GOV);
    let pending = dex.create_pair(CREATOR, true, GOV, X, 18, 300, 200, 50).unwrap();
    assert_eq!(dex.lp_token_issue_callback(pending, None), CreationOutcome::Refunded { to: CREATOR, amount: 50 });
    assert!(dex.config.get_pairs().is_empty());
}

#[test]
fn second_completion_for_same_assets_is_refunded() {
    let mut dex = TFNTestDEXContract::init(OWNER, PLATFORM, GOV);
    let first = dex.create_pair(CREATOR, true, GOV, X, 18, 300, 200, 50).unwrap();
    let second = dex.create_pair(TRADER, true, GOV, X, 6, 100, 100, 60).unwrap();
    assert_eq!(dex.lp_token_issue_callback(first, Some(LP)), CreationOutcome::Created { id: 0 });
    assert_eq!(dex.lp_token_issue_callback(second, Some(LP + 1)), CreationOutcome::Refunded { to: TRADER, amount: 60 });
    assert_eq!(dex.config.last_pair_id(), 1);
}

#[test]
fn create_pair_errors() {
    let mut dex = dex_with_pair();
    assert_eq!(dex.create_pair(CREATOR, false, GOV, Y, 18, 300, 200, 50), Err(DexError::NotWhitelisted));
    assert_eq!(dex.create_pair(CREATOR, true, Y, X, 18, 300, 200, 50), Err(DexError::WrongBaseToken));
    assert_eq!(dex.create_pair(CREATOR, true, GOV, GOV, 18, 300, 200, 50), Err(DexError::WrongBaseToken));
    assert_eq!(dex.create_pair(CREATOR, true, GOV, X, 18, 300, 200, 50), Err(DexError::DuplicatePair));
    assert_eq!(dex.create_pair(CREATOR, true, GOV, Y, 18, 60000, 40000, 50), Err(DexError::InvalidFee));
    dex.config.set_state_inactive(OWNER).unwrap();
    assert_eq!(dex.create_pair(CREATOR, true, GOV, Y, 18, 300, 200, 50), Err(DexError::NotActive));
}

#[test]
fn registry_state_is_owner_only() {
    let mut dex = TFNTestDEXContract::init(OWNER, PLATFORM, GOV);
    assert_eq!(dex.config.set_state_inactive(CREATOR), Err(DexError::NotOwner));
    assert_eq!(dex.config.set_state_inactive(OWNER), Ok(()));
    assert_eq!(dex.config.get_state(), State::Inactive);
    assert_eq!(dex.config.set_state_active(CREATOR), Err(DexError::NotOwner));
    assert_eq!(dex.config.set_state_active(OWNER), Ok(()));
    assert_eq!(dex.config.get_state(), State::Active);
}

#[test]
fn platform_address_is_set_once() {
    let mut config = tfn_test_dex::config::ConfigModule::new(OWNER);
    assert_eq!(config.set_state_active(OWNER), Err(DexError::PlatformNotSet));
    assert_eq!(config.set_platform_address(CREATOR, PLATFORM, GOV), Err(DexError::NotOwner));
    assert_eq!(config.set_platform_address(OWNER, PLATFORM, GOV), Ok(()));
    assert_eq!(config.get_base_tokens(), vec![GOV]);
    assert_eq!(config.set_platform_address(OWNER, PLATFORM, GOV), Err(DexError::PlatformAlreadySet));
    assert_eq!(config.set_state_active(OWNER), Ok(()));
}

#[test]
fn activation_needs_base_token() {
    let mut config = tfn_test_dex::config::ConfigModule::new(OWNER);
    config.platform_sc = Some(PLATFORM);
    assert_eq!(config.set_state_active(OWNER), Err(DexError::NoBaseTokens));
}

#[test]
fn first_deposit_mints_base_amount() {
    let mut dex = dex_with_pair();
    let outcome = LiquidityModule::add_liquidity(&mut dex.config, CREATOR, &vec![pay(GOV, 1000), pay(X, 1000)]).unwrap();
    assert_eq!(outcome.lp_amount, 1000);
    assert_eq!((outcome.token_refund, outcome.base_refund), (0, 0));
    assert_eq!(outcome.lp_token, LP);
    let p = pair0(&dex);
    assert_eq!(p.lp_supply, 1000);
    assert_eq!((p.liquidity_token, p.liquidity_base), (1000, 1000));
}

#[test]
fn first_deposit_uneven_mints_base_amount() {
    let mut dex = dex_with_pair();
    let outcome = LiquidityModule::add_liquidity(&mut dex.config, CREATOR, &vec![pay(X, 5000), pay(GOV, 200)]).unwrap();
    assert_eq!(outcome.lp_amount, 200);
    let p = pair0(&dex);
    assert_eq!((p.liquidity_token, p.liquidity_base, p.lp_supply), (5000, 200, 200));
}

#[test]
fn first_deposit_is_owner_only() {
    let mut dex = dex_with_pair();
    assert_eq!(
        LiquidityModule::add_liquidity(&mut dex.config, TRADER, &vec![pay(GOV, 1000), pay(X, 1000)]),
        Err(DexError::NotOwner)
    );
}

#[test]
fn later_deposit_refunds_surplus() {
    let mut dex = dex_with_liquidity();
    // 300 X wants 300 GOV; only 200 GOV paid, so 200 X are kept and 100 X go back
    let outcome = LiquidityModule::add_liquidity(&mut dex.config, TRADER, &vec![pay(X, 300), pay(GOV, 200)]).unwrap();
    assert_eq!(outcome.token_refund, 100);
    assert_eq!(outcome.base_refund, 0);
    assert_eq!(outcome.lp_amount, 200);
    let p = pair0(&dex);
    assert_eq!((p.liquidity_token, p.liquidity_base, p.lp_supply), (1200, 1200, 1200));
    // 100 X paid with 500 GOV: 400 GOV go back
    let outcome = LiquidityModule::add_liquidity(&mut dex.config, TRADER, &vec![pay(GOV, 500), pay(X, 100)]).unwrap();
    assert_eq!((outcome.token_refund, outcome.base_refund, outcome.lp_amount), (0, 400, 100));
}

#[test]
fn add_liquidity_errors() {
    let mut dex = dex_with_pair();
    assert_eq!(LiquidityModule::add_liquidity(&mut dex.config, CREATOR, &vec![pay(GOV, 1000)]), Err(DexError::InvalidPayment));
    assert_eq!(
        LiquidityModule::add_liquidity(&mut dex.config, CREATOR, &vec![pay(GOV, 1000), pay(Y, 1000)]),
        Err(DexError::NotFound)
    );
    assert_eq!(
        LiquidityModule::add_liquidity(&mut dex.config, CREATOR, &vec![pay(GOV, 0), pay(X, 1000)]),
        Err(DexError::InvalidPayment)
    );
    dex.set_pair_inactive(CREATOR, 0).unwrap();
    assert_eq!(
        LiquidityModule::add_liquidity(&mut dex.config, CREATOR, &vec![pay(GOV, 1000), pay(X, 1000)]),
        Err(DexError::PairNotActive)
    );
    dex.config.set_state_inactive(OWNER).unwrap();
    assert_eq!(
        LiquidityModule::add_liquidity(&mut dex.config, CREATOR, &vec![pay(GOV, 1000), pay(X, 1000)]),
        Err(DexError::NotActive)
    );
}

#[test]
fn deposit_overflow_fails() {
    let mut dex = dex_with_pair();
    LiquidityModule::add_liquidity(&mut dex.config, CREATOR, &vec![pay(GOV, u128::MAX), pay(X, 10)]).unwrap();
    assert_eq!(
        LiquidityModule::add_liquidity(&mut dex.config, CREATOR, &vec![pay(GOV, 10), pay(X, 10)]),
        Err(DexError::ArithmeticFailure)
    );
}

#[test]
fn partial_withdrawal_is_proportional() {
    let mut dex = dex_with_liquidity();
    let outcome = LiquidityModule::remove_liquidity(&mut dex.config, pay(LP, 250)).unwrap();
    assert_eq!((outcome.token_amount, outcome.base_amount, outcome.lp_amount), (250, 250, 250));
    let p = pair0(&dex);
    assert_eq!((p.liquidity_token, p.liquidity_base, p.lp_supply), (750, 750, 750));
    assert_eq!(p.state, PairState::Active);
}

#[test]
fn deposit_then_withdraw_returns_no_more() {
    let mut dex = dex_with_liquidity();
    SwapModule::swap_fixed_input(&mut dex.config, pay(X, 137), GOV, 0).unwrap();
    let added = LiquidityModule::add_liquidity(&mut dex.config, TRADER, &vec![pay(X, 333), pay(GOV, 333)]).unwrap();
    let kept_token = 333 - added.token_refund;
    let kept_base = 333 - added.base_refund;
    let back = LiquidityModule::remove_liquidity(&mut dex.config, pay(LP, added.lp_amount)).unwrap();
    assert!(back.token_amount <= kept_token);
    assert!(back.base_amount <= kept_base);
    assert!(back.token_amount < 333 || back.base_amount < 333);
}

#[test]
fn first_deposit_then_withdraw_returns_all() {
    let mut dex = dex_with_pair();
    let added = LiquidityModule::add_liquidity(&mut dex.config, CREATOR, &vec![pay(GOV, 700), pay(X, 900)]).unwrap();
    let back = LiquidityModule::remove_liquidity(&mut dex.config, pay(LP, added.lp_amount)).unwrap();
    assert_eq!((back.token_amount, back.base_amount), (900, 700));
}

#[test]
fn remove_liquidity_errors() {
    let mut dex = dex_with_liquidity();
    assert_eq!(LiquidityModule::remove_liquidity(&mut dex.config, pay(X, 10)), Err(DexError::InvalidPayment));
    assert_eq!(LiquidityModule::remove_liquidity(&mut dex.config, pay(LP, 0)), Err(DexError::InvalidPayment));
    assert_eq!(LiquidityModule::remove_liquidity(&mut dex.config, pay(LP, 1001)), Err(DexError::InvalidPayment));
    dex.set_pair_inactive(CREATOR, 0).unwrap();
    assert_eq!(LiquidityModule::remove_liquidity(&mut dex.config, pay(LP, 10)), Err(DexError::PairNotActive));
}

#[test]
fn scenario_first_deposit_then_swap() {
    let mut dex = dex_with_pair();
    LiquidityModule::add_liquidity(&mut dex.config, CREATOR, &vec![pay(GOV, 1000), pay(X, 1000)]).unwrap();
    let p = pair0(&dex);
    assert_eq!(p.lp_supply, 1000);
    assert_eq!((p.liquidity_token, p.liquidity_base), (1000, 1000));
    dex.set_pair_active(CREATOR, 0).unwrap();
    let outcome = SwapModule::swap_fixed_input(&mut dex.config, pay(X, 100), GOV, 0).unwrap();
    let quoted = HelpersModule::quote(100, 1000, 1000).unwrap();
    assert_eq!(quoted, 100);
    assert!(outcome.amount_out < quoted);
    assert_eq!(outcome.amount_out, 90);
    let q = pair0(&dex);
    assert_eq!((q.liquidity_token, q.liquidity_base), (1100, 910));
    assert!(q.liquidity_token * q.liquidity_base > 1000 * 1000);
}

#[test]
fn scenario_remove_all_liquidity_stops_swaps() {
    let mut dex = dex_with_liquidity();
    assert_eq!(pair0(&dex).state, PairState::Active);
    let outcome = LiquidityModule::remove_liquidity(&mut dex.config, pay(LP, 1000)).unwrap();
    assert_eq!((outcome.token_amount, outcome.base_amount), (1000, 1000));
    let p = pair0(&dex);
    assert_eq!(p.state, PairState::ActiveNoSwap);
    assert_eq!((p.lp_supply, p.liquidity_token, p.liquidity_base), (0, 0, 0));
    assert_eq!(SwapModule::swap_fixed_input(&mut dex.config, pay(X, 100), GOV, 0), Err(DexError::PairNotActive));
}

#[test]
fn scenario_fixed_output_beyond_reserve_fails() {
    let mut dex = dex_with_liquidity();
    assert_eq!(
        SwapModule::swap_fixed_output(&mut dex.config, pay(X, 1_000_000), GOV, 1000),
        Err(DexError::ArithmeticFailure)
    );
    assert_eq!(
        SwapModule::swap_fixed_output(&mut dex.config, pay(GOV, 1_000_000), X, 5000),
        Err(DexError::ArithmeticFailure)
    );
    let p = pair0(&dex);
    assert_eq!((p.liquidity_token, p.liquidity_base), (1000, 1000));
}

#[test]
fn scenario_remove_base_token_in_use() {
    let mut dex = dex_with_pair();
    assert_eq!(dex.remove_base_token(true, GOV), Err(DexError::AssetInUse));
    assert_eq!(dex.config.get_base_tokens(), vec![GOV]);
}

#[test]
fn swap_fixed_input_with_base_pays_fee_on_input() {
    let mut dex = dex_with_liquidity();
    // fee of 100 at 0.5% is 0; 100 GOV buy 90 X
    let outcome = SwapModule::swap_fixed_input(&mut dex.config, pay(GOV, 100), X, 90).unwrap();
    assert_eq!(outcome.amount_out, 90);
    assert_eq!(outcome.owner_fee, 0);
    let p = pair0(&dex);
    assert_eq!((p.liquidity_token, p.liquidity_base), (910, 1100));
}

#[test]
fn swap_fixed_input_slippage() {
    let mut dex = dex_with_liquidity();
    assert_eq!(SwapModule::swap_fixed_input(&mut dex.config, pay(X, 100), GOV, 91), Err(DexError::SlippageExceeded));
    assert_eq!(pair0(&dex).liquidity_base, 1000);
}

#[test]
fn swap_fixed_input_owner_fee_in_base() {
    let mut dex = TFNTestDEXContract::init(OWNER, PLATFORM, GOV);
    let pending = dex.create_pair(CREATOR, true, GOV, X, 18, 300, 200, 50).unwrap();
    dex.lp_token_issue_callback(pending, Some(LP));
    LiquidityModule::add_liquidity(&mut dex.config, CREATOR, &vec![pay(GOV, 100000), pay(X, 100000)]).unwrap();
    dex.set_pair_active(CREATOR, 0).unwrap();
    let outcome = SwapModule::swap_fixed_input(&mut dex.config, pay(X, 10000), GOV, 0).unwrap();
    assert_eq!((outcome.amount_out, outcome.owner_fee), (9045, 18));
    let p = pair0(&dex);
    assert_eq!((p.liquidity_token, p.liquidity_base), (110000, 100000 - 9090 + 27));
}

#[test]
fn swap_fixed_output_refunds_unused_payment() {
    let mut dex = dex_with_liquidity();
    // 90 X wanted for GOV: 99 GOV before fee, fee 99 * 500 / 99500 = 0
    let outcome = SwapModule::swap_fixed_output(&mut dex.config, pay(GOV, 150), X, 90).unwrap();
    assert_eq!((outcome.amount_in, outcome.amount_out, outcome.refund), (99, 90, 51));
    let p = pair0(&dex);
    assert_eq!((p.liquidity_token, p.liquidity_base), (910, 1099));
}

#[test]
fn swap_fixed_output_insufficient_payment() {
    let mut dex = dex_with_liquidity();
    assert_eq!(SwapModule::swap_fixed_output(&mut dex.config, pay(GOV, 98), X, 90), Err(DexError::SlippageExceeded));
}

#[test]
fn swap_errors() {
    let mut dex = dex_with_pair();
    assert_eq!(SwapModule::swap_fixed_input(&mut dex.config, pay(Y, 100), GOV, 0), Err(DexError::NotFound));
    assert_eq!(SwapModule::swap_fixed_input(&mut dex.config, pay(X, 100), GOV, 0), Err(DexError::PairNotActive));
    dex.config.set_state_inactive(OWNER).unwrap();
    assert_eq!(SwapModule::swap_fixed_output(&mut dex.config, pay(X, 100), GOV, 1), Err(DexError::NotActive));
}

#[test]
fn amount_views() {
    let dex = dex_with_liquidity();
    assert_eq!(SwapModule::get_amount_out_view(&dex.config, X, GOV, 100), Ok(89));
    assert_eq!(SwapModule::get_amount_out_view(&dex.config, GOV, X, 100), Ok(90));
    assert_eq!(SwapModule::get_amount_in_view(&dex.config, GOV, X, 90), Ok(100));
    assert_eq!(SwapModule::get_amount_in_view(&dex.config, X, GOV, 90), Ok(99));
    assert_eq!(SwapModule::get_amount_out_view(&dex.config, X, GOV, 0), Err(DexError::InvalidPayment));
    assert_eq!(SwapModule::get_amount_in_view(&dex.config, X, Y, 5), Err(DexError::NotFound));
    assert_eq!(SwapModule::get_amount_in_view(&dex.config, X, GOV, 1000), Err(DexError::ArithmeticFailure));
    let empty = dex_with_pair();
    assert_eq!(SwapModule::get_amount_out_view(&empty.config, X, GOV, 100), Err(DexError::InsufficientLiquidity));
}

#[test]
fn pair_state_changes_are_owner_only() {
    let mut dex = dex_with_pair();
    assert_eq!(dex.set_pair_active(CREATOR, 0), Err(DexError::InsufficientLiquidity));
    assert_eq!(dex.set_pair_active_no_swap(CREATOR, 0), Err(DexError::InsufficientLiquidity));
    assert_eq!(dex.set_pair_active(TRADER, 0), Err(DexError::NotOwner));
    assert_eq!(dex.set_pair_inactive(CREATOR, 5), Err(DexError::NotFound));
    LiquidityModule::add_liquidity(&mut dex.config, CREATOR, &vec![pay(GOV, 10), pay(X, 10)]).unwrap();
    assert_eq!(dex.set_pair_active(CREATOR, 0), Ok(()));
    assert_eq!(pair0(&dex).state, PairState::Active);
    assert_eq!(dex.set_pair_active_no_swap(CREATOR, 0), Ok(()));
    assert_eq!(pair0(&dex).state, PairState::ActiveNoSwap);
    assert_eq!(dex.set_pair_inactive(CREATOR, 0), Ok(()));
    assert_eq!(pair0(&dex).state, PairState::Inactive);
}

#[test]
fn change_pair_fees_checks_rates() {
    let mut dex = dex_with_pair();
    assert_eq!(dex.change_pair_fees(TRADER, 0, 10, 10), Err(DexError::NotOwner));
    assert_eq!(dex.change_pair_fees(CREATOR, 0, 100000, 0), Err(DexError::InvalidFee));
    assert_eq!(dex.change_pair_fees(CREATOR, 0, 1000, 2000), Ok(()));
    assert_eq!((pair0(&dex).lp_fee, pair0(&dex).owner_fee), (1000, 2000));
    dex.config.set_state_inactive(OWNER).unwrap();
    assert_eq!(dex.change_pair_fees(CREATOR, 0, 1, 1), Err(DexError::NotActive));
}

#[test]
fn base_token_whitelist() {
    let mut dex = TFNTestDEXContract::init(OWNER, PLATFORM, GOV);
    assert_eq!(dex.add_base_token(true, GOV), Err(DexError::BaseTokenExists));
    assert_eq!(dex.add_base_token(false, Y), Err(DexError::NotWhitelisted));
    assert_eq!(dex.add_base_token(true, Y), Ok(()));
    assert_eq!(dex.config.get_base_tokens(), vec![GOV, Y]);
    assert_eq!(dex.remove_base_token(true, X), Err(DexError::WrongBaseToken));
    assert_eq!(dex.remove_base_token(false, Y), Err(DexError::NotWhitelisted));
    assert_eq!(dex.remove_base_token(true, GOV), Ok(()));
    assert_eq!(dex.config.get_base_tokens(), vec![Y]);
    dex.config.set_state_inactive(OWNER).unwrap();
    assert_eq!(dex.add_base_token(true, X), Err(DexError::NotActive));
}
