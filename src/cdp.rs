use vstd::prelude::*;
use vstd::arithmetic::div_mod::lemma_div_is_ordered;

use crate::error::Error;
use crate::fixed::{
    checked_sum, fits_i128, mul_div, mul_div_ok, mul_div_spec, BPS, SECONDS_PER_YEAR,
};

verus! {

/// Stored state of a debt position. `Insolvent` is never stored: it is how an
/// `Open` position reads while its ratio is below the minimum.
#[derive(Clone, Copy, Debug, PartialEq, Eq, Structural)]
pub enum CDPStatus {
    Open,
    Insolvent,
    Frozen,
    Closed,
}

/// A collateralized debt position, keyed by its borrower.
#[derive(Clone, Copy, Debug, PartialEq, Eq, Structural)]
pub struct CDP {
    pub id: u64,
    pub xlm_deposited: i128,
    pub asset_lent: i128,
    pub status: CDPStatus,
    pub ledger: u32,
    pub timestamp: u64,
    pub accrued_interest: i128,
    pub interest_paid: i128,
    pub last_interest_time: u64,
}

impl CDP {
    /// Amounts are never negative.
    pub open spec fn wf(&self) -> bool {
        &&& self.xlm_deposited >= 0
        &&& self.asset_lent >= 0
        &&& self.accrued_interest >= 0
        &&& self.interest_paid >= 0
    }

    pub open spec fn debt(&self) -> int {
        self.asset_lent + self.accrued_interest
    }
}

/// Interest owed on `lent` after `dt` seconds at `rate_bps` a year, linear accrual.
pub open spec fn interest_spec(lent: int, rate_bps: int, dt: int) -> int {
    mul_div_spec(lent, rate_bps * dt, BPS * SECONDS_PER_YEAR)
}

/// Seconds elapsed since the position's interest was last refreshed.
pub open spec fn elapsed(c: CDP, now: u64) -> int {
    if now > c.last_interest_time { now - c.last_interest_time } else { 0 }
}

/// Whether the interest refresh at `now` stays within the integer range.
pub open spec fn accrual_ok(c: CDP, rate_bps: u32, now: u64) -> bool {
    let dt = elapsed(c, now);
    &&& mul_div_ok(c.asset_lent as int, rate_bps * dt, BPS * SECONDS_PER_YEAR)
    &&& fits_i128(c.accrued_interest + interest_spec(c.asset_lent as int, rate_bps as int, dt))
}

/// The position with its interest refreshed to `now`.
pub open spec fn accrued_spec(c: CDP, rate_bps: u32, now: u64) -> CDP {
    let dt = elapsed(c, now);
    CDP {
        accrued_interest: (c.accrued_interest + interest_spec(
            c.asset_lent as int,
            rate_bps as int,
            dt,
        )) as i128,
        last_interest_time: if now > c.last_interest_time { now } else { c.last_interest_time },
        ..c
    }
}

/// Refreshes the interest of `c` to `now`: the principal earns `rate_bps` a year,
/// linearly, over the seconds since the last refresh.
pub fn accrue_interest(c: CDP, rate_bps: u32, now: u64) -> (r: Result<CDP, Error>)
    requires
        c.wf(),
    ensures
        r is Ok <==> accrual_ok(c, rate_bps, now),
        r matches Ok(n) ==> n == accrued_spec(c, rate_bps, now) && n.wf(),
        r matches Ok(n) ==> n.accrued_interest >= c.accrued_interest,
        r matches Err(e) ==> e == Error::ArithmeticError,
{
    let dt: u64 = if now > c.last_interest_time { now - c.last_interest_time } else { 0 };
    assert(rate_bps as int * dt as int <= u32::MAX as int * u64::MAX as int) by (nonlinear_arith)
        requires rate_bps <= u32::MAX, dt <= u64::MAX;
    let scaled: i128 = (rate_bps as i128) * (dt as i128);
    let interest = mul_div(c.asset_lent, scaled, BPS * SECONDS_PER_YEAR)?;
    proof {
        assert(interest >= 0) by (nonlinear_arith)
            requires
                interest == mul_div_spec(c.asset_lent as int, scaled as int, BPS * SECONDS_PER_YEAR),
                c.asset_lent >= 0,
                scaled >= 0,
        {
            assert(c.asset_lent as int * scaled as int >= 0);
        }
    }
    let accrued = checked_sum(c.accrued_interest, interest)?;
    Ok(CDP {
        accrued_interest: accrued,
        last_interest_time: if now > c.last_interest_time { now } else { c.last_interest_time },
        ..c
    })
}

/// The value in pegged units of `xlm` collateral at the two oracle prices.
pub open spec fn collateral_value(xlm: int, xlm_price: int, pegged_price: int) -> int {
    mul_div_spec(xlm, xlm_price, pegged_price)
}

/// The pegged value of `xlm` collateral: both prices share the oracle's scale,
/// which cancels.
pub fn xlm_value_in_pegged(xlm: i128, xlm_price: i128, pegged_price: i128) -> (r: Result<i128, Error>)
    ensures
        r is Ok <==> mul_div_ok(xlm as int, xlm_price as int, pegged_price as int),
        r matches Ok(v) ==> v == collateral_value(xlm as int, xlm_price as int, pegged_price as int),
        r matches Err(e) ==> e == Error::ArithmeticError,
{
    mul_div(xlm, xlm_price, pegged_price)
}

/// Collateralization ratio in basis points of `xlm` collateral against `debt`,
/// or the error met on the way. A position with no debt is solvent at any price;
/// its ratio reads as `i128::MAX`.
pub open spec fn ratio_spec(xlm: int, debt: int, xlm_price: int, pegged_price: int) -> Result<
    i128,
    Error,
> {
    if debt == 0 {
        Ok(i128::MAX)
    } else if !mul_div_ok(xlm, xlm_price, pegged_price) {
        Err(Error::ArithmeticError)
    } else if !mul_div_ok(collateral_value(xlm, xlm_price, pegged_price), BPS as int, debt) {
        Err(Error::ArithmeticError)
    } else {
        Ok(mul_div_spec(collateral_value(xlm, xlm_price, pegged_price), BPS as int, debt) as i128)
    }
}

/// `(xlm in pegged units) * 10_000 / debt`, with every step checked.
pub fn collateralization_ratio(xlm: i128, debt: i128, xlm_price: i128, pegged_price: i128) -> (r:
    Result<i128, Error>)
    ensures
        r == ratio_spec(xlm as int, debt as int, xlm_price as int, pegged_price as int),
{
    if debt == 0 {
        return Ok(i128::MAX);
    }
    let value = xlm_value_in_pegged(xlm, xlm_price, pegged_price)?;
    mul_div(value, BPS, debt)
}

/// Whether a ratio computation gave a value at or above `min`.
pub open spec fn ratio_meets(r: Result<i128, Error>, min: u32) -> bool {
    r matches Ok(v) && v >= min
}

/// The status a stored position reads as at the given prices.
pub open spec fn status_view(c: CDP, ratio: Result<i128, Error>, min: u32) -> CDPStatus {
    if c.status == CDPStatus::Open && !ratio_meets(ratio, min) {
        CDPStatus::Insolvent
    } else {
        c.status
    }
}

/// Interest only grows between touches: what accrues on a position by a later
/// time is never negative and never less than what accrues by an earlier one.
pub proof fn lemma_interest_monotone(c: CDP, rate_bps: u32, t1: u64, t2: u64)
    requires
        c.wf(),
        t1 <= t2,
    ensures
        0 <= interest_spec(c.asset_lent as int, rate_bps as int, elapsed(c, t1)),
        interest_spec(c.asset_lent as int, rate_bps as int, elapsed(c, t1))
            <= interest_spec(c.asset_lent as int, rate_bps as int, elapsed(c, t2)),
{
    let lent = c.asset_lent as int;
    let d1 = elapsed(c, t1);
    let d2 = elapsed(c, t2);
    let k = BPS * SECONDS_PER_YEAR;
    assert(0 <= lent * (rate_bps * d1) <= lent * (rate_bps * d2)) by (nonlinear_arith)
        requires lent >= 0, rate_bps >= 0, 0 <= d1 <= d2;
    lemma_div_is_ordered(0, lent * (rate_bps * d1), k);
    lemma_div_is_ordered(lent * (rate_bps * d1), lent * (rate_bps * d2), k);
}

} // verus!
