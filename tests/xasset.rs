use xasset::cdp::CDPStatus;
use xasset::contract::TokenContract;
use xasset::data_feed::{Asset, DataFeed};
use xasset::error::Error;
use xasset::prices::{LedgerInfo, PriceData, Prices};
use xasset::token::Ledger;

const CONTRACT: u64 = 100;
const ADMIN: u64 = 1;
const ALICE: u64 = 10;
const BOB: u64 = 11;
const CAROL: u64 = 12;
const STAKER: u64 = 13;
const FEED_ADMIN: u64 = 2;

fn create_data_feed() -> DataFeed {
    let assets = vec![Asset::Other("XLM".to_string()), Asset::Other("USDT".to_string())];
    DataFeed::new(FEED_ADMIN, assets, Asset::Other("USDT".to_string()), 14, 300)
}

fn create_token_contract() -> TokenContract {
    TokenContract::new(
        CONTRACT,
        ADMIN,
        200,
        300,
        300,
        "USDT".to_string(),
        11000,
        "United States Dollar xAsset".to_string(),
        "xUSD".to_string(),
        7,
        11_00,
    )
}

fn set_prices(feed: &mut DataFeed, xlm_price: i128, usdt_price: i128) {
    feed.set_asset_price(FEED_ADMIN, &Asset::Other("XLM".to_string()), xlm_price, 1000).unwrap();
    feed.set_asset_price(FEED_ADMIN, &Asset::Other("USDT".to_string()), usdt_price, 1000).unwrap();
}

fn read_prices(feed: &DataFeed) -> Prices {
    Prices {
        xlm: feed.lastprice(&Asset::Other("XLM".to_string())).unwrap(),
        pegged: feed.lastprice(&Asset::Other("USDT".to_string())).unwrap(),
    }
}

fn at(timestamp: u64) -> LedgerInfo {
    LedgerInfo { timestamp, sequence: 0 }
}

#[test]
fn test_token_initialization() {
    let token = create_token_contract();
    assert_eq!(token.symbol(), "xUSD".to_string());
    assert_eq!(token.name(), "United States Dollar xAsset".to_string());
    assert_eq!(token.decimals(), 7);
}

#[test]
fn test_cdp_operations() {
    let mut xlm = Ledger::new();
    let mut feed = create_data_feed();
    let mut token = create_token_contract();
    xlm.mint(ADMIN, 10_000_000_000_000).unwrap();
    xlm.mint(ALICE, 2_000_000_000_000).unwrap();
    xlm.mint(BOB, 1_500_000_000_000).unwrap();
    set_prices(&mut feed, 10_000_000_000_000, 100_000_000_000_000);
    let prices = read_prices(&feed);
    let env = at(0);

    token.open_cdp(&mut xlm, env, prices, ALICE, 1_700_000_000, 100_000_000).unwrap();
    token.open_cdp(&mut xlm, env, prices, BOB, 1_300_000_000, 100_000_000).unwrap();

    let alice_cdp = token.cdp(env, prices, ALICE).unwrap();
    let bob_cdp = token.cdp(env, prices, BOB).unwrap();
    assert_eq!(alice_cdp.xlm_deposited, 1_700_000_000);
    assert_eq!(alice_cdp.asset_lent, 100_000_000);
    assert_eq!(bob_cdp.xlm_deposited, 1_300_000_000);
    assert_eq!(bob_cdp.asset_lent, 100_000_000);
    assert_eq!(alice_cdp.status, CDPStatus::Open);

    token.set_min_collat_ratio(ADMIN, 15000).unwrap();
    assert_eq!(token.minimum_collateralization_ratio(), 15000);

    let alice_cdp = token.cdp(env, prices, ALICE).unwrap();
    let bob_cdp = token.cdp(env, prices, BOB).unwrap();
    assert_eq!(alice_cdp.status, CDPStatus::Open);
    assert_eq!(bob_cdp.status, CDPStatus::Insolvent);
}

#[test]
fn test_cannot_cause_overflow() {
    let mut token = create_token_contract();
    token.mint(ADMIN, ALICE, 1000_0000000).unwrap();
    token.mint(ADMIN, BOB, i128::MAX).unwrap();
    let result = token.transfer(BOB, ALICE, i128::MAX);
    assert!(result.is_err());
    assert_eq!(result.unwrap_err(), Error::ArithmeticError);
}

#[test]
fn test_token_transfers() {
    let mut token = create_token_contract();
    token.mint(ADMIN, ALICE, 1000_0000000).unwrap();
    assert_eq!(token.balance(ALICE), 1000_0000000);
    assert_eq!(token.balance(BOB), 0);
    token.transfer(ALICE, BOB, 500_0000000).unwrap();
    assert_eq!(token.balance(ALICE), 500_0000000);
    assert_eq!(token.balance(BOB), 500_0000000);
}

#[test]
fn test_allowances() {
    let mut token = create_token_contract();
    let seq: u32 = 0;
    token.mint(ADMIN, BOB, 2000_0000000).unwrap();
    assert_eq!(token.balance(BOB), 2000_0000000);
    token.approve(BOB, CAROL, 1000_0000000, seq + 1000).unwrap();
    assert_eq!(token.allowance(BOB, CAROL, seq), 1000_0000000);
    token.transfer_from(CAROL, BOB, ALICE, 500_0000000, seq).unwrap();
    assert_eq!(token.allowance(BOB, CAROL, seq), 500_0000000);
    assert_eq!(token.balance(BOB), 1500_0000000);
    assert_eq!(token.balance(ALICE), 500_0000000);
    assert_eq!(token.balance(CAROL), 0);
}

#[test]
fn test_stability_pool() {
    let mut xlm = Ledger::new();
    let mut token = create_token_contract();
    xlm.mint(ALICE, 1_000_000_000_000).unwrap();
    xlm.mint(BOB, 1_000_000_000_000).unwrap();
    token.mint(ADMIN, ALICE, 1000_0000000).unwrap();
    token.mint(ADMIN, BOB, 1000_0000000).unwrap();
    let env = at(0);

    token.stake(env, ALICE, 500_0000000).unwrap();
    token.stake(env, BOB, 700_0000000).unwrap();
    assert_eq!(token.get_staker_deposit_amount(ALICE).unwrap(), 500_0000000);
    assert_eq!(token.get_staker_deposit_amount(BOB).unwrap(), 700_0000000);
    assert_eq!(token.get_total_xasset(), 1200_0000000);

    token.withdraw(env, ALICE, 200_0000000).unwrap();
    assert_eq!(token.get_staker_deposit_amount(ALICE).unwrap(), 300_0000000);
}

#[test]
fn test_liquidation() {
    let mut xlm = Ledger::new();
    let mut feed = create_data_feed();
    let mut token = create_token_contract();
    xlm.mint(ALICE, 2_000_000_000_000).unwrap();
    xlm.mint(STAKER, 2_000_000_000_000).unwrap();
    let env = at(0);

    token.mint(ADMIN, STAKER, 1000_0000000).unwrap();
    token.stake(env, STAKER, 50_0000000).unwrap();

    set_prices(&mut feed, 10_000_000_000_000, 100_000_000_000_000);
    let prices = read_prices(&feed);
    token.open_cdp(&mut xlm, env, prices, ALICE, 10_000_000_000, 700_000_000).unwrap();

    feed.set_asset_price(FEED_ADMIN, &Asset::Other("XLM".to_string()), 5_000_000_000_000, 1000).unwrap();
    let prices = read_prices(&feed);
    let alice_cdp = token.cdp(env, prices, ALICE).unwrap();
    assert_eq!(alice_cdp.status, CDPStatus::Insolvent);

    token.freeze_cdp(env, prices, ALICE).unwrap();
    token.liquidate_cdp(env, prices, ALICE).unwrap();

    let alice_cdp = token.cdp(env, prices, ALICE).unwrap();
    assert!(alice_cdp.xlm_deposited < 10_000_000_000);
    assert!(alice_cdp.asset_lent < 700_000_000);
}

#[test]
fn test_error_handling() {
    let mut xlm = Ledger::new();
    let mut feed = create_data_feed();
    let mut token = create_token_contract();
    xlm.mint(ALICE, 2_000_000_000_000).unwrap();
    xlm.mint(BOB, 2_000_000_000_000).unwrap();
    set_prices(&mut feed, 10_000_000_000_000, 100_000_000_000_000);
    let prices = read_prices(&feed);
    let env = at(0);

    let result = token.transfer(ALICE, BOB, 1000_0000000);
    assert!(result.is_err());

    token.open_cdp(&mut xlm, env, prices, ALICE, 2_000_000_000, 100_000_000).unwrap();
    let result = token.open_cdp(&mut xlm, env, prices, ALICE, 2_000_000_000, 100_000_000);
    assert!(result.is_err());

    token.mint(ADMIN, BOB, 1200_0000000).unwrap();
    token.stake(env, BOB, 100_0000000).unwrap();
    let result = token.withdraw(env, BOB, 200_0000000);
    assert!(result.is_err());
}

#[test]
fn test_cdp_operations_with_interest() {
    let mut xlm = Ledger::new();
    let mut feed = create_data_feed();
    let mut token = create_token_contract();
    xlm.mint(ALICE, 2_000_000_000_000).unwrap();
    set_prices(&mut feed, 10_000_000_000_000, 100_000_000_000_000);
    let prices = read_prices(&feed);

    let initial_time: u64 = 1700000000;
    token.open_cdp(&mut xlm, at(initial_time), prices, ALICE, 10_000_000_000, 500_000_000).unwrap();
    let initial_cdp = token.cdp(at(initial_time), prices, ALICE).unwrap();
    assert_eq!(initial_cdp.xlm_deposited, 10_000_000_000);
    assert_eq!(initial_cdp.asset_lent, 500_000_000);
    assert_eq!(initial_cdp.accrued_interest.amount, 0);

    let cdp_after_year = token.cdp(at(initial_time + 31536000), prices, ALICE).unwrap();
    assert!(cdp_after_year.accrued_interest.amount > 0);
    assert!(cdp_after_year.accrued_interest.amount >= 54_000_000);

    token.borrow_xasset(at(initial_time + 47304000), prices, ALICE, 200_000_000).unwrap();

    let env = at(initial_time + 55944000);
    let cdp_before_repay = token.cdp(env, prices, ALICE).unwrap();
    assert!(cdp_before_repay.asset_lent + cdp_before_repay.accrued_interest.amount > 700_000_000);

    let approval = token.get_accrued_interest(env, ALICE).unwrap().approval_amount;
    xlm.approve(ALICE, CONTRACT, approval, env.sequence + 100).unwrap();

    token.repay_debt(env, ALICE, 300_000_000).unwrap();
    let final_cdp = token.cdp(env, prices, ALICE).unwrap();
    assert!(
        final_cdp.asset_lent + final_cdp.accrued_interest.amount
            < cdp_before_repay.asset_lent + cdp_before_repay.accrued_interest.amount
    );

    let env = at(initial_time + 55944000 + 5_184_000);
    let cdp_for_interest = token.cdp(env, prices, ALICE).unwrap();
    let accrued_interest = cdp_for_interest.accrued_interest.amount;
    assert!(accrued_interest > 0);

    let repay_interest_amount = accrued_interest / 2;
    let cdp_post_pay = token.pay_interest(env, ALICE, repay_interest_amount).unwrap();
    assert!(cdp_post_pay.accrued_interest < accrued_interest);
    assert!(cdp_post_pay.accrued_interest > 0);
}

#[test]
fn test_transfer_from_checks_balance() {
    let mut token = create_token_contract();
    let seq: u32 = 0;
    token.mint(ADMIN, BOB, 1_0000000).unwrap();
    assert_eq!(token.balance(BOB), 1_0000000);
    token.approve(BOB, CAROL, 1000_0000000, seq + 1000).unwrap();
    assert_eq!(token.allowance(BOB, CAROL, seq), 1000_0000000);
    let result = token.transfer_from(CAROL, BOB, ALICE, 500_0000000, seq);
    assert!(result.is_err());
    assert_eq!(result.unwrap_err(), Error::InsufficientBalance);
}

#[test]
fn test_token_transfers_self() {
    let mut token = create_token_contract();
    token.mint(ADMIN, ALICE, 1000_0000000).unwrap();
    assert_eq!(token.balance(ALICE), 1000_0000000);
    let result = token.transfer(ALICE, ALICE, 1000_0000000);
    assert!(result.is_err());
    assert_eq!(result.unwrap_err(), Error::CannotTransferToSelf);
    assert_eq!(token.balance(ALICE), 1000_0000000);
}
