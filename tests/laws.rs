use xasset::cdp::{accrue_interest, collateralization_ratio, xlm_value_in_pegged, CDPStatus, CDP};
use xasset::contract::TokenContract;
use xasset::error::Error;
use xasset::fixed::{
    checked_diff, checked_product, checked_quotient, checked_sum, from_rate_bps, mul_div, ONE,
};
use xasset::liquidation::plan_liquidation;
use xasset::pool::{apply_liquidation, effective_deposit, PoolState, StakePosition};
use xasset::prices::{price_pair, LedgerInfo, PriceData, Prices};
use xasset::token::Ledger;

const CONTRACT: u64 = 100;
const ADMIN: u64 = 1;

fn instance() -> TokenContract {
    TokenContract::new(
        CONTRACT,
        ADMIN,
        200,
        300,
        300,
        "USDT".to_string(),
        11000,
        "United States Dollar xAsset".to_string(),
        "xUSD".to_string(),
        7,
        1100,
    )
}

fn prices(xlm: i128, pegged: i128) -> Prices {
    Prices {
        xlm: Some(PriceData { price: xlm, timestamp: 1000 }),
        pegged: Some(PriceData { price: pegged, timestamp: 1000 }),
    }
}

fn at(timestamp: u64) -> LedgerInfo {
    LedgerInfo { timestamp, sequence: 0 }
}

fn position(xlm: i128, lent: i128, accrued: i128) -> CDP {
    CDP {
        id: 1,
        xlm_deposited: xlm,
        asset_lent: lent,
        status: CDPStatus::Frozen,
        ledger: 0,
        timestamp: 0,
        accrued_interest: accrued,
        interest_paid: 0,
        last_interest_time: 0,
    }
}

#[test]
fn mul_div_keeps_full_width_product() {
    // (2^127 - 1) * 2 overflows 128 bits, the quotient does not
    assert_eq!(mul_div(i128::MAX, 2, 4), Ok(85070591730234615865843651857942052863));
    assert_eq!(mul_div(i128::MAX, i128::MAX, i128::MAX), Ok(i128::MAX));
    assert_eq!(mul_div(i128::MIN, 1, 1), Ok(i128::MIN));
    assert_eq!(mul_div(i128::MIN, -1, 1), Err(Error::ArithmeticError));
}

#[test]
fn mul_div_truncates_toward_zero() {
    assert_eq!(mul_div(7, 3, 2), Ok(10));
    assert_eq!(mul_div(-7, 3, 2), Ok(-10));
    assert_eq!(mul_div(7, -3, -2), Ok(10));
    assert_eq!(mul_div(1_700_000_000, 10_000_000_000_000, 100_000_000_000_000), Ok(170_000_000));
}

#[test]
fn kernel_reports_overflow_and_division_by_zero() {
    assert_eq!(mul_div(5, 5, 0), Err(Error::ArithmeticError));
    assert_eq!(mul_div(i128::MAX, 2, 1), Err(Error::ArithmeticError));
    assert_eq!(checked_sum(i128::MAX, 1), Err(Error::ArithmeticError));
    assert_eq!(checked_diff(i128::MIN, 1), Err(Error::ArithmeticError));
    assert_eq!(checked_product(i128::MAX, 2), Err(Error::ArithmeticError));
    assert_eq!(checked_sum(2, 3), Ok(5));
    assert_eq!(checked_diff(2, 3), Ok(-1));
    assert_eq!(checked_product(-4, 3), Ok(-12));
    assert_eq!(checked_quotient(-7, 2), Ok(-3));
    assert_eq!(checked_quotient(7, 0), Err(Error::ArithmeticError));
    assert_eq!(checked_quotient(i128::MIN, -1), Err(Error::ArithmeticError));
    assert_eq!(checked_quotient(i128::MIN, 1), Ok(i128::MIN));
    assert_eq!(from_rate_bps(1100), 11 * ONE / 100);
}

#[test]
fn one_year_of_interest_at_eleven_percent() {
    let c = CDP { last_interest_time: 0, ..position(10_000_000_000, 500_000_000, 0) };
    let later = accrue_interest(c, 1100, 31_536_000).unwrap();
    assert_eq!(later.accrued_interest, 55_000_000);
    assert_eq!(later.last_interest_time, 31_536_000);
    let same = accrue_interest(later, 1100, 31_536_000).unwrap();
    assert_eq!(same.accrued_interest, 55_000_000);
    let earlier = accrue_interest(later, 1100, 10).unwrap();
    assert_eq!(earlier.accrued_interest, 55_000_000);
}

#[test]
fn ratio_in_basis_points() {
    let xp = 10_000_000_000_000;
    let pp = 100_000_000_000_000;
    assert_eq!(collateralization_ratio(1_700_000_000, 100_000_000, xp, pp), Ok(17000));
    assert_eq!(collateralization_ratio(1_300_000_000, 100_000_000, xp, pp), Ok(13000));
    assert_eq!(collateralization_ratio(5, 0, xp, pp), Ok(i128::MAX));
    assert_eq!(collateralization_ratio(5, 1, xp, 0), Err(Error::ArithmeticError));
    assert_eq!(xlm_value_in_pegged(1_300_000_000, xp, pp), Ok(130_000_000));
}

#[test]
fn missing_or_non_positive_price_is_unavailable() {
    let none = Prices { xlm: None, pegged: Some(PriceData { price: 1, timestamp: 0 }) };
    assert_eq!(price_pair(none), Err(Error::PriceUnavailable));
    assert_eq!(price_pair(prices(0, 1)), Err(Error::PriceUnavailable));
    assert_eq!(price_pair(prices(3, 4)), Ok((3, 4)));
    let mut xlm = Ledger::new();
    xlm.mint(5, 10_000_000_000).unwrap();
    let mut token = instance();
    let r = token.open_cdp(&mut xlm, at(0), none, 5, 1_000_000_000, 1);
    assert_eq!(r, Err(Error::PriceUnavailable));
}

#[test]
fn liquidation_conserves_debt_and_collateral() {
    let xp = 5_000_000_000_000;
    let pp = 100_000_000_000_000;
    let c = position(10_000_000_000, 700_000_000, 70_000_000);
    let p = plan_liquidation(c, 500_000_000, xp, pp).unwrap();
    assert_eq!(p.debt_cancelled, 500_000_000);
    assert_eq!(p.debt_cancelled + p.remaining_lent + p.remaining_interest, 770_000_000);
    assert_eq!(p.principal_repaid + p.interest_repaid, p.debt_cancelled);
    assert_eq!(
        p.collateral_to_stakers + p.collateral_to_interest + p.remaining_collateral,
        10_000_000_000
    );
    // 70_000_000 of interest is worth 1_400_000_000 collateral at these prices
    assert_eq!(p.collateral_to_interest, 1_400_000_000 * 500 / 770);
    assert_eq!(p.interest_repaid, 70_000_000 * 500 / 770);

    let full = plan_liquidation(c, 1_000_000_000, xp, pp).unwrap();
    assert_eq!(full.debt_cancelled, 770_000_000);
    assert_eq!((full.remaining_lent, full.remaining_interest, full.remaining_collateral), (0, 0, 0));
    assert_eq!(full.collateral_to_interest, 1_400_000_000);
    assert_eq!(full.collateral_to_stakers, 8_600_000_000);
}

#[test]
fn partial_liquidation_scales_product_and_sum() {
    let pool = PoolState { product: ONE, sum: 0, epoch: 0, total_xasset: 1_000 };
    let (next, terminal) = apply_liquidation(pool, 250, 400).unwrap();
    assert_eq!(terminal, None);
    assert_eq!(next.product, ONE / 4 * 3);
    assert_eq!(next.sum, 400 * ONE / 1_000);
    assert_eq!(next.total_xasset, 750);
    assert_eq!(next.epoch, 0);
}

#[test]
fn draining_liquidation_starts_new_epoch() {
    let pool = PoolState { product: ONE, sum: 7, epoch: 3, total_xasset: 1_000 };
    let (next, terminal) = apply_liquidation(pool, 1_000, 500).unwrap();
    assert_eq!(next, PoolState { product: ONE, sum: 0, epoch: 4, total_xasset: 0 });
    assert_eq!(terminal, Some(7 + 500 * ONE / 1_000));
    // a product under EPSILON counts as a drain too
    let big = PoolState { total_xasset: 10_000_000_000, ..pool };
    let near = apply_liquidation(big, 9_999_999_999, 0).unwrap();
    assert_eq!(near.0.epoch, 4);
    let far = apply_liquidation(big, 9_999_999_000, 0).unwrap();
    assert_eq!(far.0.epoch, 3);
    assert_eq!(far.0.product, ONE / 10_000_000);
    let old = StakePosition {
        id: 1,
        xasset_deposit: 600,
        product_constant: ONE,
        compounded_constant: 0,
        rewards_claimed: 0,
        pending_rewards: 0,
        epoch: 3,
        ledger: 0,
        timestamp: 0,
    };
    assert_eq!(effective_deposit(old, next), Ok(0));
}

#[test]
fn stake_after_drain_has_no_carryover_and_claims_only_new_collateral() {
    let mut xlm = Ledger::new();
    let mut token = instance();
    let env = at(0);
    let (alice, bob, carol) = (10u64, 11u64, 12u64);
    token.mint(ADMIN, alice, 1_000_000_000).unwrap();
    token.mint(ADMIN, carol, 1_000_000_000).unwrap();
    xlm.mint(bob, 100_000_000_000).unwrap();
    token.stake(env, alice, 500_000_000).unwrap();

    let p = prices(10_000_000_000_000, 100_000_000_000_000);
    token.open_cdp(&mut xlm, env, p, bob, 10_000_000_000, 700_000_000).unwrap();
    let crash = prices(5_000_000_000_000, 100_000_000_000_000);
    token.freeze_cdp(env, crash, bob).unwrap();
    let record = token.liquidate_cdp(env, crash, bob).unwrap();
    assert_eq!(record.principal_repaid, 500_000_000);
    assert_eq!(token.get_total_xasset(), 0);
    assert_eq!(token.get_staker_deposit_amount(alice), Ok(0));
    assert_eq!(token.cdp(env, crash, bob).unwrap().status, CDPStatus::Frozen);

    // the drained epoch's collateral still belongs to alice
    let paid = token.claim(&mut xlm, env, alice).unwrap();
    assert_eq!(paid, 10_000_000_000 * 500 / 700);
    assert_eq!(xlm.balance(alice), paid);

    token.stake(env, carol, 300_000_000).unwrap();
    assert_eq!(token.get_staker_deposit_amount(carol), Ok(300_000_000));
    assert_eq!(token.claim(&mut xlm, env, carol), Ok(0));
}

#[test]
fn effective_deposits_add_up_to_total_after_partial_liquidation() {
    let mut xlm = Ledger::new();
    let mut token = instance();
    let env = at(0);
    let stakers = [(20u64, 333_333_333i128), (21, 123_456_789), (22, 543_209_878)];
    for (id, amount) in stakers {
        token.mint(ADMIN, id, amount).unwrap();
        token.stake(env, id, amount).unwrap();
    }
    let bob = 11u64;
    xlm.mint(bob, 100_000_000_000).unwrap();
    let p = prices(10_000_000_000_000, 100_000_000_000_000);
    token.open_cdp(&mut xlm, env, p, bob, 10_000_000_000, 700_000_000).unwrap();
    let crash = prices(5_000_000_000_000, 100_000_000_000_000);
    token.freeze_cdp(env, crash, bob).unwrap();
    token.liquidate_cdp(env, crash, bob).unwrap();
    assert_eq!(token.get_total_xasset(), 1_000_000_000 - 700_000_000);
    let sum: i128 = stakers.iter().map(|(id, _)| token.get_staker_deposit_amount(*id).unwrap()).sum();
    let diff = (sum - token.get_total_xasset()).abs();
    assert!(diff <= 3, "sum {} total {}", sum, token.get_total_xasset());
    assert_eq!(token.cdp(env, crash, bob).unwrap().status, CDPStatus::Closed);
}

#[test]
fn borrow_withdraw_and_open_keep_minimum_ratio() {
    let mut xlm = Ledger::new();
    let mut token = instance();
    let env = at(0);
    let alice = 10u64;
    xlm.mint(alice, 100_000_000_000).unwrap();
    let p = prices(10_000_000_000_000, 100_000_000_000_000);
    // 1_099_999_999 collateral is worth just under 110% of 100_000_000
    assert_eq!(
        token.open_cdp(&mut xlm, env, p, alice, 1_099_999_999, 100_000_000),
        Err(Error::InsufficientCollateral)
    );
    token.open_cdp(&mut xlm, env, p, alice, 1_100_000_000, 100_000_000).unwrap();
    assert_eq!(xlm.balance(CONTRACT), 1_100_000_000);
    assert_eq!(token.borrow_xasset(env, p, alice, 1), Err(Error::InsufficientCollateral));
    assert_eq!(
        token.withdraw_collateral(&mut xlm, env, p, alice, 1),
        Err(Error::InsufficientCollateral)
    );
    token.add_collateral(&mut xlm, env, alice, 110_000_000).unwrap();
    token.borrow_xasset(env, p, alice, 10_000_000).unwrap();
    assert_eq!(token.cdp(env, p, alice).unwrap().collateralization_ratio, 11000);
    token.add_collateral(&mut xlm, env, alice, 10).unwrap();
    token.withdraw_collateral(&mut xlm, env, p, alice, 10).unwrap();
    assert_eq!(token.balance(alice), 110_000_000);
    assert_eq!(token.freeze_cdp(env, p, alice), Err(Error::CDPNotInsolvent));
}

#[test]
fn repay_pays_interest_first_and_never_goes_negative() {
    let mut xlm = Ledger::new();
    let mut token = instance();
    let alice = 10u64;
    xlm.mint(alice, 100_000_000_000).unwrap();
    let p = prices(10_000_000_000_000, 100_000_000_000_000);
    token.open_cdp(&mut xlm, at(0), p, alice, 10_000_000_000, 500_000_000).unwrap();
    let year = at(31_536_000);
    assert_eq!(token.repay_debt(year, alice, 600_000_000), Err(Error::InvalidAmount));
    assert_eq!(token.pay_interest(year, alice, 55_000_001), Err(Error::InvalidAmount));
    token.repay_debt(year, alice, 60_000_000).unwrap();
    let v = token.cdp(year, p, alice).unwrap();
    assert_eq!(v.accrued_interest.amount, 0);
    assert_eq!(v.asset_lent, 495_000_000);
    assert_eq!(v.interest_paid, 55_000_000);
    assert_eq!(token.balance(alice), 440_000_000);
    assert_eq!(token.repay_debt(year, alice, 0), Err(Error::InvalidAmount));
    assert_eq!(token.repay_debt(year, 77, 1), Err(Error::CDPNotFound));
}

#[test]
fn frozen_positions_take_no_user_action() {
    let mut xlm = Ledger::new();
    let mut token = instance();
    let env = at(0);
    let alice = 10u64;
    xlm.mint(alice, 100_000_000_000).unwrap();
    token.mint(ADMIN, alice, 1_000).unwrap();
    let p = prices(10_000_000_000_000, 100_000_000_000_000);
    token.open_cdp(&mut xlm, env, p, alice, 10_000_000_000, 700_000_000).unwrap();
    assert_eq!(token.liquidate_cdp(env, p, alice), Err(Error::CDPNotFrozen));
    let crash = prices(5_000_000_000_000, 100_000_000_000_000);
    token.freeze_cdp(env, crash, alice).unwrap();
    assert_eq!(token.cdp(env, crash, alice).unwrap().status, CDPStatus::Frozen);
    assert_eq!(token.add_collateral(&mut xlm, env, alice, 1), Err(Error::CDPNotOpen));
    assert_eq!(token.repay_debt(env, alice, 1), Err(Error::CDPNotOpen));
    assert_eq!(token.freeze_cdp(env, crash, alice), Err(Error::CDPNotOpen));
    // an empty pool cancels nothing and the position stays frozen
    let record = token.liquidate_cdp(env, crash, alice).unwrap();
    assert_eq!(record.principal_repaid, 0);
    assert_eq!(token.cdp(env, crash, alice).unwrap().asset_lent, 700_000_000);
}

#[test]
fn failed_transfer_from_keeps_allowance() {
    let mut ledger = Ledger::new();
    ledger.mint(1, 100).unwrap();
    ledger.approve(1, 2, 50, 10).unwrap();
    assert_eq!(ledger.transfer_from(2, 1, 3, 60, 0), Err(Error::InsufficientAllowance));
    assert_eq!(ledger.allowance(1, 2, 0), 50);
    assert_eq!(ledger.transfer_from(2, 1, 1, 10, 0), Err(Error::CannotTransferToSelf));
    assert_eq!(ledger.allowance(1, 2, 0), 50);
    assert_eq!(ledger.transfer_from(2, 1, 3, 10, 11), Err(Error::InsufficientAllowance));
    ledger.transfer_from(2, 1, 3, 10, 0).unwrap();
    assert_eq!(ledger.allowance(1, 2, 0), 40);
    assert_eq!(ledger.balance(3), 10);
    assert_eq!(ledger.mint(1, -1), Err(Error::InvalidAmount));
    assert_eq!(ledger.burn(1, 91), Err(Error::InsufficientBalance));
}

#[test]
fn only_admin_mints_and_sets_ratio() {
    let mut token = instance();
    assert_eq!(token.mint(2, 3, 10), Err(Error::Unauthorized));
    assert_eq!(token.set_min_collat_ratio(2, 1), Err(Error::Unauthorized));
    assert_eq!(token.minimum_collateralization_ratio(), 11000);
    assert_eq!(token.xlm_contract(), 300);
    assert_eq!(token.asset_contract(), 300);
    assert_eq!(token.xlm_sac(), 200);
}

#[test]
fn interest_detail_adds_a_tenth_for_approval() {
    let mut xlm = Ledger::new();
    let mut token = instance();
    xlm.mint(10, 100_000_000_000).unwrap();
    let p = prices(10_000_000_000_000, 100_000_000_000_000);
    token.open_cdp(&mut xlm, at(0), p, 10, 10_000_000_000, 500_000_000).unwrap();
    let d = token.get_accrued_interest(at(31_536_000), 10).unwrap();
    assert_eq!(d.amount, 55_000_000);
    assert_eq!(d.approval_amount, 60_500_000);
    assert_eq!(token.get_accrued_interest(at(0), 11), Err(Error::CDPNotFound));
}

#[test]
fn pool_holdings_cannot_be_moved_by_hand() {
    let mut token = instance();
    token.mint(ADMIN, 10, 1_000).unwrap();
    token.stake(at(0), 10, 600).unwrap();
    assert_eq!(token.balance(CONTRACT), 600);
    assert_eq!(token.transfer(CONTRACT, 11, 600), Err(Error::Unauthorized));
    token.approve(CONTRACT, 11, 600, 100).unwrap();
    assert_eq!(token.transfer_from(11, CONTRACT, 11, 600, 0), Err(Error::Unauthorized));
    assert_eq!(token.balance(CONTRACT), 600);
    assert_eq!(token.stake(at(0), CONTRACT, 1), Err(Error::CannotTransferToSelf));
}

#[test]
fn full_liquidation_closes_the_position() {
    let mut xlm = Ledger::new();
    let mut token = instance();
    let env = at(0);
    let (bob, staker) = (11u64, 13u64);
    token.mint(ADMIN, staker, 1_000_000_000).unwrap();
    token.stake(env, staker, 1_000_000_000).unwrap();
    xlm.mint(bob, 100_000_000_000).unwrap();
    let p = prices(10_000_000_000_000, 100_000_000_000_000);
    token.open_cdp(&mut xlm, env, p, bob, 10_000_000_000, 700_000_000).unwrap();
    let crash = prices(5_000_000_000_000, 100_000_000_000_000);
    token.freeze_cdp(env, crash, bob).unwrap();
    let record = token.liquidate_cdp(env, crash, bob).unwrap();
    assert_eq!(record.principal_repaid, 700_000_000);
    assert_eq!(record.collateral_liquidated, 10_000_000_000);
    let v = token.cdp(env, crash, bob).unwrap();
    assert_eq!((v.asset_lent, v.accrued_interest.amount, v.xlm_deposited), (0, 0, 0));
    assert_eq!(v.status, CDPStatus::Closed);
    assert_eq!(token.get_total_xasset(), 300_000_000);
    assert_eq!(token.balance(CONTRACT), 300_000_000);
}
