use vstd::prelude::*;
use vstd::arithmetic::div_mod::{lemma_div_is_ordered, lemma_fundamental_div_mod, lemma_div_by_multiple};

use crate::cdp::CDP;
use crate::error::Error;
use crate::fixed::{checked_sum, fits_i128, mul_div, mul_div_ok, mul_div_spec};

verus! {

/// Log entry of one liquidation, keyed by position and time.
#[derive(Clone, Copy, Debug, PartialEq, Eq, Structural)]
pub struct Liquidation {
    pub cdp_id: u64,
    pub collateral_liquidated: i128,
    pub principal_repaid: i128,
    pub accrued_interest_repaid: i128,
    pub collateral_applied_to_interest: i128,
    pub collateralization_ratio: u32,
    pub xlm_price: i128,
    pub xasset_price: i128,
    pub ledger: u32,
    pub timestamp: u64,
}

/// How a liquidation divides a frozen position's debt and collateral.
#[derive(Clone, Copy, Debug, PartialEq, Eq, Structural)]
pub struct LiquidationPlan {
    pub debt_cancelled: i128,
    pub principal_repaid: i128,
    pub interest_repaid: i128,
    pub collateral_to_stakers: i128,
    pub collateral_to_interest: i128,
    pub remaining_lent: i128,
    pub remaining_interest: i128,
    pub remaining_collateral: i128,
}

pub open spec fn min(a: int, b: int) -> int {
    if a < b { a } else { b }
}

/// `x * n / d` for `0 <= n <= d`: a share of `x` no larger than `x`, all of it when `n == d`.
proof fn lemma_share(x: int, n: int, d: int)
    requires
        x >= 0,
        0 <= n <= d,
        d > 0,
    ensures
        0 <= mul_div_spec(x, n, d) <= x,
        mul_div_spec(x, n, d) == (x * n) / d,
        n == d ==> mul_div_spec(x, n, d) == x,
{
    assert(0 <= x * n <= x * d) by (nonlinear_arith)
        requires x >= 0, 0 <= n <= d;
    lemma_div_is_ordered(0, x * n, d);
    lemma_div_is_ordered(x * n, x * d, d);
    lemma_div_by_multiple(x, d);
}

/// The interest share of a prorated repayment never exceeds what is cancelled,
/// and leaves no more principal to repay than is lent.
proof fn lemma_principal_share(lent: int, accrued: int, cancel: int)
    requires
        lent >= 0,
        accrued >= 0,
        lent + accrued > 0,
        0 <= cancel <= lent + accrued,
    ensures
        0 <= cancel - mul_div_spec(accrued, cancel, lent + accrued) <= lent,
{
    let debt = lent + accrued;
    lemma_share(accrued, cancel, debt);
    let q = (accrued * cancel) / debt;
    lemma_fundamental_div_mod(accrued * cancel, debt);
    let r = (accrued * cancel) % debt;
    assert(0 <= r < debt);
    assert(q <= cancel) by (nonlinear_arith)
        requires accrued * cancel == debt * q + r, r >= 0, accrued <= debt, cancel >= 0, debt > 0;
    assert(cancel - lent <= q) by (nonlinear_arith)
        requires
            accrued * cancel == debt * q + r,
            0 <= r < debt,
            debt == lent + accrued,
            lent >= 0,
            cancel <= debt,
    {
        assert((cancel - lent) * debt <= accrued * cancel) by (nonlinear_arith)
            requires debt == lent + accrued, lent >= 0, cancel <= debt;
        assert((cancel - lent) * debt < (q + 1) * debt);
    }
}

/// The collateral worth the accrued interest at the two prices, at most all of it.
pub open spec fn interest_collateral_spec(c: CDP, xlm_price: int, pegged_price: int) -> int {
    min(mul_div_spec(c.accrued_interest as int, pegged_price, xlm_price), c.xlm_deposited as int)
}

pub open spec fn plan_ok(c: CDP, xlm_price: int, pegged_price: int) -> bool {
    &&& fits_i128(c.debt())
    &&& mul_div_ok(c.accrued_interest as int, pegged_price, xlm_price)
}

/// The division of a position's debt and collateral when the pool holds `pool_total`.
pub open spec fn plan_spec(c: CDP, pool_total: int, xlm_price: int, pegged_price: int) -> LiquidationPlan {
    let debt = c.debt();
    let cancel = min(pool_total, debt);
    let for_interest = interest_collateral_spec(c, xlm_price, pegged_price);
    let for_stakers = c.xlm_deposited - for_interest;
    if debt == 0 {
        LiquidationPlan {
            debt_cancelled: 0,
            principal_repaid: 0,
            interest_repaid: 0,
            collateral_to_stakers: 0,
            collateral_to_interest: 0,
            remaining_lent: c.asset_lent,
            remaining_interest: c.accrued_interest,
            remaining_collateral: c.xlm_deposited,
        }
    } else {
        let interest_repaid = mul_div_spec(c.accrued_interest as int, cancel, debt);
        let to_interest = mul_div_spec(for_interest, cancel, debt);
        let to_stakers = mul_div_spec(for_stakers, cancel, debt);
        LiquidationPlan {
            debt_cancelled: cancel as i128,
            principal_repaid: (cancel - interest_repaid) as i128,
            interest_repaid: interest_repaid as i128,
            collateral_to_stakers: to_stakers as i128,
            collateral_to_interest: to_interest as i128,
            remaining_lent: (c.asset_lent - (cancel - interest_repaid)) as i128,
            remaining_interest: (c.accrued_interest - interest_repaid) as i128,
            remaining_collateral: (c.xlm_deposited - to_interest - to_stakers) as i128,
        }
    }
}

/// Divides a frozen position's debt and collateral for a liquidation against a
/// pool holding `pool_total`. The debt cancelled is the whole debt, or what the
/// pool holds when that is less; interest, principal and the two parts of the
/// collateral are cancelled in that same proportion. The collateral worth the
/// accrued interest at the two prices goes to the protocol, the rest to the stakers.
pub fn plan_liquidation(c: CDP, pool_total: i128, xlm_price: i128, pegged_price: i128) -> (r:
    Result<LiquidationPlan, Error>)
    requires
        c.wf(),
        pool_total >= 0,
        xlm_price > 0,
        pegged_price > 0,
    ensures
        r is Ok <==> plan_ok(c, xlm_price as int, pegged_price as int),
        r matches Ok(p) ==> p == plan_spec(c, pool_total as int, xlm_price as int, pegged_price as int),
        r matches Err(e) ==> e == Error::ArithmeticError,
{
    let debt = checked_sum(c.asset_lent, c.accrued_interest)?;
    let interest_value = mul_div(c.accrued_interest, pegged_price, xlm_price)?;
    if debt == 0 {
        return Ok(LiquidationPlan {
            debt_cancelled: 0,
            principal_repaid: 0,
            interest_repaid: 0,
            collateral_to_stakers: 0,
            collateral_to_interest: 0,
            remaining_lent: c.asset_lent,
            remaining_interest: c.accrued_interest,
            remaining_collateral: c.xlm_deposited,
        });
    }
    let cancel = if pool_total < debt { pool_total } else { debt };
    let for_interest = if interest_value < c.xlm_deposited { interest_value } else { c.xlm_deposited };
    proof {
        assert(interest_value >= 0) by (nonlinear_arith)
            requires
                interest_value == mul_div_spec(c.accrued_interest as int, pegged_price as int, xlm_price as int),
                c.accrued_interest >= 0, pegged_price > 0, xlm_price > 0,
        {
            assert(c.accrued_interest as int * pegged_price as int >= 0);
        }
        lemma_share(c.accrued_interest as int, cancel as int, debt as int);
        lemma_share(for_interest as int, cancel as int, debt as int);
        lemma_share((c.xlm_deposited - for_interest) as int, cancel as int, debt as int);
        lemma_principal_share(c.asset_lent as int, c.accrued_interest as int, cancel as int);
    }
    let for_stakers = c.xlm_deposited - for_interest;
    let interest_repaid = mul_div(c.accrued_interest, cancel, debt)?;
    let to_interest = mul_div(for_interest, cancel, debt)?;
    let to_stakers = mul_div(for_stakers, cancel, debt)?;
    let principal_repaid = cancel - interest_repaid;
    Ok(LiquidationPlan {
        debt_cancelled: cancel,
        principal_repaid,
        interest_repaid,
        collateral_to_stakers: to_stakers,
        collateral_to_interest: to_interest,
        remaining_lent: c.asset_lent - principal_repaid,
        remaining_interest: c.accrued_interest - interest_repaid,
        remaining_collateral: c.xlm_deposited - to_interest - to_stakers,
    })
}

/// Liquidation conserves debt and collateral: what is cancelled plus what remains
/// is the debt before, and the collateral sent to the stakers, the collateral
/// kept against interest and the collateral left on the position add up to the
/// collateral before. Nothing remaining is negative, and a pool that holds the
/// whole of a non-zero debt leaves the position with neither debt nor collateral.
pub proof fn lemma_liquidation_conserves(c: CDP, pool_total: int, xlm_price: int, pegged_price: int)
    requires
        c.wf(),
        pool_total >= 0,
        xlm_price > 0,
        pegged_price > 0,
        plan_ok(c, xlm_price, pegged_price),
    ensures
        ({
            let p = plan_spec(c, pool_total, xlm_price, pegged_price);
            &&& p.debt_cancelled + p.remaining_lent + p.remaining_interest == c.debt()
            &&& p.principal_repaid + p.interest_repaid == p.debt_cancelled
            &&& p.collateral_to_stakers + p.collateral_to_interest + p.remaining_collateral
                == c.xlm_deposited
            &&& p.debt_cancelled == min(pool_total, c.debt())
            &&& p.remaining_lent >= 0 && p.remaining_interest >= 0 && p.remaining_collateral >= 0
            &&& p.collateral_to_stakers >= 0 && p.collateral_to_interest >= 0
            &&& p.interest_repaid >= 0 && p.principal_repaid >= 0
            &&& (pool_total >= c.debt() > 0 ==> p.remaining_lent == 0 && p.remaining_interest == 0
                && p.remaining_collateral == 0)
        }),
{
    let debt = c.debt();
    if debt > 0 {
        let cancel = min(pool_total, debt);
        let for_interest = interest_collateral_spec(c, xlm_price, pegged_price);
        assert(for_interest >= 0) by (nonlinear_arith)
            requires
                for_interest == min(mul_div_spec(c.accrued_interest as int, pegged_price, xlm_price), c.xlm_deposited as int),
                c.accrued_interest >= 0, pegged_price > 0, xlm_price > 0, c.xlm_deposited >= 0,
        {
            assert(c.accrued_interest as int * pegged_price >= 0);
        }
        lemma_share(c.accrued_interest as int, cancel, debt);
        lemma_share(for_interest, cancel, debt);
        lemma_share(c.xlm_deposited - for_interest, cancel, debt);
        lemma_principal_share(c.asset_lent as int, c.accrued_interest as int, cancel);
    }
}

} // verus!
