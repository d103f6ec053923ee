use vstd::prelude::*;

use crate::cdp::{
    accrual_ok, accrue_interest, accrued_spec, collateralization_ratio, ratio_meets, ratio_spec,
    status_view, CDPStatus, CDP,
};
use crate::contract::{key, CDPView, InterestDetail, TokenContract};
use crate::error::Error;
use crate::fixed::fits_i128;
use crate::liquidation::{
    lemma_liquidation_conserves, plan_liquidation, plan_ok, plan_spec, Liquidation, LiquidationPlan,
};
use crate::pool::{apply_liquidation, liquidation_spec, PoolState};
use crate::prices::{price_pair, price_pair_spec, LedgerInfo, Prices};
use crate::token::Ledger;

verus! {

// Debt positions: opening, collateral, borrowing, repayment, reading, freezing
// and liquidation.
impl TokenContract {
    /// The checks `open_cdp` makes, in order; `None` when all pass.
    pub open spec fn open_cdp_error(
        &self,
        xlm: &Ledger,
        prices: Prices,
        borrower: u64,
        xlm_deposit: i128,
        asset_to_borrow: i128,
    ) -> Option<Error> {
        if self.cdp_of(borrower) is Some {
            Some(Error::CDPAlreadyExists)
        } else if xlm_deposit <= 0 || asset_to_borrow <= 0 {
            Some(Error::InvalidAmount)
        } else {
            match price_pair_spec(prices) {
                Err(e) => Some(e),
                Ok((xp, pp)) => match ratio_spec(
                    xlm_deposit as int,
                    asset_to_borrow as int,
                    xp as int,
                    pp as int,
                ) {
                    Err(e) => Some(e),
                    Ok(ratio) => if ratio < self.min_collat_ratio {
                        Some(Error::InsufficientCollateral)
                    } else if !fits_i128(self.token.balance_of(borrower) + asset_to_borrow) {
                        Some(Error::ArithmeticError)
                    } else {
                        xlm.transfer_error(borrower, self.address, xlm_deposit as int)
                    },
                },
            }
        }
    }

    /// Opens a position for `borrower`: takes `xlm_deposit` of collateral and mints
    /// `asset_to_borrow` of the synthetic asset to the borrower, provided the
    /// ratio of the two meets the minimum.
    pub fn open_cdp(
        &mut self,
        xlm: &mut Ledger,
        env: LedgerInfo,
        prices: Prices,
        borrower: u64,
        xlm_deposit: i128,
        asset_to_borrow: i128,
    ) -> (r: Result<(), Error>)
        requires
            old(self).wf(),
            old(xlm).wf(),
        ensures
            final(self).wf(),
            final(xlm).wf(),
            r == (match old(self).open_cdp_error(
                old(xlm),
                prices,
                borrower,
                xlm_deposit,
                asset_to_borrow,
            ) {
                Some(e) => Err::<(), Error>(e),
                None => Ok(()),
            }),
            r is Err ==> *final(self) == *old(self) && *final(xlm) == *old(xlm),
            r is Ok ==> final(self).cdp_of(borrower) == Some(
                CDP {
                    id: borrower,
                    xlm_deposited: xlm_deposit,
                    asset_lent: asset_to_borrow,
                    status: CDPStatus::Open,
                    ledger: env.sequence,
                    timestamp: env.timestamp,
                    accrued_interest: 0,
                    interest_paid: 0,
                    last_interest_time: env.timestamp,
                },
            ),
            r is Ok ==> final(self).cdps@ == old(self).cdps@.insert(
                key(borrower),
                final(self).cdp_of(borrower)->Some_0,
            ),
            r is Ok ==> final(self).token.balances_updated(
                &old(self).token,
                borrower,
                old(self).token.balance_of(borrower) + asset_to_borrow,
            ),
            r is Ok ==> final(self).token.same_allowances(&old(self).token),
            r is Ok ==> final(xlm).balances_moved(old(xlm), borrower, old(self).address, xlm_deposit as int),
            r is Ok ==> final(self).same_params(old(self)) && final(self).same_pool(old(self)),
            r is Ok ==> (price_pair_spec(prices) matches Ok((xp, pp)) && ratio_meets(
                ratio_spec(xlm_deposit as int, asset_to_borrow as int, xp as int, pp as int),
                final(self).min_collat_ratio,
            )),
    {
        if self.cdps.get(borrower as u128).is_some() {
            return Err(Error::CDPAlreadyExists);
        }
        if xlm_deposit <= 0 || asset_to_borrow <= 0 {
            return Err(Error::InvalidAmount);
        }
        let (xp, pp) = price_pair(prices)?;
        let ratio = collateralization_ratio(xlm_deposit, asset_to_borrow, xp, pp)?;
        if ratio < self.min_collat_ratio as i128 {
            return Err(Error::InsufficientCollateral);
        }
        let held = self.token.balance(borrower);
        if held.checked_add(asset_to_borrow).is_none() {
            return Err(Error::ArithmeticError);
        }
        xlm.transfer(borrower, self.address, xlm_deposit)?;
        let minted = self.token.mint(borrower, asset_to_borrow);
        assert(minted is Ok);
        let c = CDP {
            id: borrower,
            xlm_deposited: xlm_deposit,
            asset_lent: asset_to_borrow,
            status: CDPStatus::Open,
            ledger: env.sequence,
            timestamp: env.timestamp,
            accrued_interest: 0,
            interest_paid: 0,
            last_interest_time: env.timestamp,
        };
        self.cdps.set(borrower as u128, c);
        Ok(())
    }

    /// The position as a user operation sees it: present, `Open`, asked for a
    /// positive amount, and with its interest refreshed to `env`'s time.
    pub open spec fn user_op_spec(&self, env: LedgerInfo, id: u64, amount: i128) -> Result<CDP, Error> {
        match self.cdp_of(id) {
            None => Err(Error::CDPNotFound),
            Some(c) => if c.status != CDPStatus::Open {
                Err(Error::CDPNotOpen)
            } else if amount <= 0 {
                Err(Error::InvalidAmount)
            } else if !accrual_ok(c, self.annual_interest_rate, env.timestamp) {
                Err(Error::ArithmeticError)
            } else {
                Ok(accrued_spec(c, self.annual_interest_rate, env.timestamp))
            },
        }
    }

    fn begin_user_op(&self, env: LedgerInfo, id: u64, amount: i128) -> (r: Result<CDP, Error>)
        requires
            self.wf(),
        ensures
            r == self.user_op_spec(env, id, amount),
            r matches Ok(c) ==> c.wf() && c.id == self.cdp_of(id)->Some_0.id,
    {
        let c = self.load_cdp(id)?;
        if c.status != CDPStatus::Open {
            return Err(Error::CDPNotOpen);
        }
        if amount <= 0 {
            return Err(Error::InvalidAmount);
        }
        accrue_interest(c, self.annual_interest_rate, env.timestamp)
    }

    /// `c` stamped with the ledger and time of `env`.
    pub open spec fn stamped(c: CDP, env: LedgerInfo) -> CDP {
        CDP { ledger: env.sequence, timestamp: env.timestamp, ..c }
    }

    /// The position after `add_collateral`, or the error it fails with.
    pub open spec fn add_collateral_spec(&self, xlm: &Ledger, env: LedgerInfo, borrower: u64, amount: i128) -> Result<CDP, Error> {
        match self.user_op_spec(env, borrower, amount) {
            Err(e) => Err(e),
            Ok(c) => if !fits_i128(c.xlm_deposited + amount) {
                Err(Error::ArithmeticError)
            } else {
                match xlm.transfer_error(borrower, self.address, amount as int) {
                    Some(e) => Err(e),
                    None => Ok(Self::stamped(CDP { xlm_deposited: (c.xlm_deposited + amount) as i128, ..c }, env)),
                }
            },
        }
    }

    /// Adds `amount` of collateral to `borrower`'s position.
    pub fn add_collateral(&mut self, xlm: &mut Ledger, env: LedgerInfo, borrower: u64, amount: i128) -> (r: Result<(), Error>)
        requires
            old(self).wf(),
            old(xlm).wf(),
        ensures
            final(self).wf(),
            final(xlm).wf(),
            r is Ok <==> old(self).add_collateral_spec(old(xlm), env, borrower, amount) is Ok,
            r matches Err(e) ==> old(self).add_collateral_spec(old(xlm), env, borrower, amount) == Err::<CDP, Error>(e),
            r is Err ==> *final(self) == *old(self) && *final(xlm) == *old(xlm),
            r is Ok ==> final(self).cdps@ == old(self).cdps@.insert(key(borrower),
                old(self).add_collateral_spec(old(xlm), env, borrower, amount)->Ok_0),
            r is Ok ==> final(xlm).balances_moved(old(xlm), borrower, old(self).address, amount as int),
            r is Ok ==> final(self).token == old(self).token,
            r is Ok ==> final(self).same_params(old(self)) && final(self).same_pool(old(self)),
    {
        let c = self.begin_user_op(env, borrower, amount)?;
        let total = match c.xlm_deposited.checked_add(amount) {
            Some(t) => t,
            None => { return Err(Error::ArithmeticError); },
        };
        xlm.transfer(borrower, self.address, amount)?;
        let n = CDP { xlm_deposited: total, ledger: env.sequence, timestamp: env.timestamp, ..c };
        self.cdps.set(borrower as u128, n);
        Ok(())
    }

    /// The position after `withdraw_collateral`, or the error it fails with.
    pub open spec fn withdraw_collateral_spec(&self, xlm: &Ledger, env: LedgerInfo, prices: Prices, borrower: u64, amount: i128) -> Result<CDP, Error> {
        match self.user_op_spec(env, borrower, amount) {
            Err(e) => Err(e),
            Ok(c) => if amount > c.xlm_deposited {
                Err(Error::InsufficientCollateral)
            } else if !fits_i128(c.debt()) {
                Err(Error::ArithmeticError)
            } else {
                match price_pair_spec(prices) {
                    Err(e) => Err(e),
                    Ok((xp, pp)) => match ratio_spec(c.xlm_deposited - amount, c.debt(), xp as int, pp as int) {
                        Err(e) => Err(e),
                        Ok(ratio) => if ratio < self.min_collat_ratio {
                            Err(Error::InsufficientCollateral)
                        } else {
                            match xlm.transfer_error(self.address, borrower, amount as int) {
                                Some(e) => Err(e),
                                None => Ok(Self::stamped(CDP { xlm_deposited: (c.xlm_deposited - amount) as i128, ..c }, env)),
                            }
                        },
                    },
                }
            },
        }
    }

    /// Returns `amount` of collateral to `borrower`, provided the position still
    /// meets the minimum ratio afterwards.
    pub fn withdraw_collateral(&mut self, xlm: &mut Ledger, env: LedgerInfo, prices: Prices, borrower: u64, amount: i128) -> (r: Result<(), Error>)
        requires
            old(self).wf(),
            old(xlm).wf(),
        ensures
            final(self).wf(),
            final(xlm).wf(),
            r is Ok <==> old(self).withdraw_collateral_spec(old(xlm), env, prices, borrower, amount) is Ok,
            r matches Err(e) ==> old(self).withdraw_collateral_spec(old(xlm), env, prices, borrower, amount) == Err::<CDP, Error>(e),
            r is Err ==> *final(self) == *old(self) && *final(xlm) == *old(xlm),
            r is Ok ==> final(self).cdps@ == old(self).cdps@.insert(key(borrower),
                old(self).withdraw_collateral_spec(old(xlm), env, prices, borrower, amount)->Ok_0),
            r is Ok ==> final(xlm).balances_moved(old(xlm), old(self).address, borrower, amount as int),
            r is Ok ==> final(self).token == old(self).token,
            r is Ok ==> final(self).same_params(old(self)) && final(self).same_pool(old(self)),
            r is Ok ==> (price_pair_spec(prices) matches Ok((xp, pp)) && ratio_meets(ratio_spec(
                final(self).cdp_of(borrower)->Some_0.xlm_deposited as int,
                final(self).cdp_of(borrower)->Some_0.debt(), xp as int, pp as int), final(self).min_collat_ratio)),
    {
        let c = self.begin_user_op(env, borrower, amount)?;
        if amount > c.xlm_deposited {
            return Err(Error::InsufficientCollateral);
        }
        let debt = match c.asset_lent.checked_add(c.accrued_interest) {
            Some(d) => d,
            None => { return Err(Error::ArithmeticError); },
        };
        let (xp, pp) = price_pair(prices)?;
        let ratio = collateralization_ratio(c.xlm_deposited - amount, debt, xp, pp)?;
        if ratio < self.min_collat_ratio as i128 {
            return Err(Error::InsufficientCollateral);
        }
        xlm.transfer(self.address, borrower, amount)?;
        let n = CDP { xlm_deposited: c.xlm_deposited - amount, ledger: env.sequence, timestamp: env.timestamp, ..c };
        self.cdps.set(borrower as u128, n);
        Ok(())
    }

    /// The position after `borrow_xasset`, or the error it fails with.
    pub open spec fn borrow_spec(&self, env: LedgerInfo, prices: Prices, borrower: u64, amount: i128) -> Result<CDP, Error> {
        match self.user_op_spec(env, borrower, amount) {
            Err(e) => Err(e),
            Ok(c) => if !fits_i128(c.asset_lent + amount) || !fits_i128(c.debt() + amount) {
                Err(Error::ArithmeticError)
            } else {
                match price_pair_spec(prices) {
                    Err(e) => Err(e),
                    Ok((xp, pp)) => match ratio_spec(c.xlm_deposited as int, c.debt() + amount, xp as int, pp as int) {
                        Err(e) => Err(e),
                        Ok(ratio) => if ratio < self.min_collat_ratio {
                            Err(Error::InsufficientCollateral)
                        } else if !fits_i128(self.token.balance_of(borrower) + amount) {
                            Err(Error::ArithmeticError)
                        } else {
                            Ok(Self::stamped(CDP { asset_lent: (c.asset_lent + amount) as i128, ..c }, env))
                        },
                    },
                }
            },
        }
    }

    /// Mints `amount` more of the synthetic asset against `borrower`'s position,
    /// provided the position meets the minimum ratio with the added debt.
    pub fn borrow_xasset(&mut self, env: LedgerInfo, prices: Prices, borrower: u64, amount: i128) -> (r: Result<(), Error>)
        requires
            old(self).wf(),
        ensures
            final(self).wf(),
            r is Ok <==> old(self).borrow_spec(env, prices, borrower, amount) is Ok,
            r matches Err(e) ==> old(self).borrow_spec(env, prices, borrower, amount) == Err::<CDP, Error>(e),
            r is Err ==> *final(self) == *old(self),
            r is Ok ==> final(self).cdps@ == old(self).cdps@.insert(key(borrower),
                old(self).borrow_spec(env, prices, borrower, amount)->Ok_0),
            r is Ok ==> final(self).token.balances_updated(&old(self).token, borrower,
                old(self).token.balance_of(borrower) + amount),
            r is Ok ==> final(self).token.same_allowances(&old(self).token),
            r is Ok ==> final(self).same_params(old(self)) && final(self).same_pool(old(self)),
            r is Ok ==> (price_pair_spec(prices) matches Ok((xp, pp)) && ratio_meets(ratio_spec(
                final(self).cdp_of(borrower)->Some_0.xlm_deposited as int,
                final(self).cdp_of(borrower)->Some_0.debt(), xp as int, pp as int), final(self).min_collat_ratio)),
    {
        let c = self.begin_user_op(env, borrower, amount)?;
        let lent = match c.asset_lent.checked_add(amount) {
            Some(v) => v,
            None => { return Err(Error::ArithmeticError); },
        };
        let debt = match lent.checked_add(c.accrued_interest) {
            Some(v) => v,
            None => { return Err(Error::ArithmeticError); },
        };
        let (xp, pp) = price_pair(prices)?;
        let ratio = collateralization_ratio(c.xlm_deposited, debt, xp, pp)?;
        if ratio < self.min_collat_ratio as i128 {
            return Err(Error::InsufficientCollateral);
        }
        let held = self.token.balance(borrower);
        if held.checked_add(amount).is_none() {
            return Err(Error::ArithmeticError);
        }
        let minted = self.token.mint(borrower, amount);
        assert(minted is Ok);
        let n = CDP { asset_lent: lent, ledger: env.sequence, timestamp: env.timestamp, ..c };
        self.cdps.set(borrower as u128, n);
        Ok(())
    }

    /// The position after `repay_debt`, or the error it fails with. The amount
    /// pays the accrued interest first and the principal with the rest.
    pub open spec fn repay_spec(&self, env: LedgerInfo, borrower: u64, amount: i128) -> Result<CDP, Error> {
        match self.user_op_spec(env, borrower, amount) {
            Err(e) => Err(e),
            Ok(c) => {
                let to_interest = if amount < c.accrued_interest { amount as int } else { c.accrued_interest as int };
                if !fits_i128(c.debt()) {
                    Err(Error::ArithmeticError)
                } else if amount > c.debt() {
                    Err(Error::InvalidAmount)
                } else if self.token.balance_of(borrower) < amount {
                    Err(Error::InsufficientBalance)
                } else if !fits_i128(c.interest_paid + to_interest) {
                    Err(Error::ArithmeticError)
                } else {
                    Ok(Self::stamped(CDP {
                        accrued_interest: (c.accrued_interest - to_interest) as i128,
                        asset_lent: (c.asset_lent - (amount - to_interest)) as i128,
                        interest_paid: (c.interest_paid + to_interest) as i128,
                        ..c
                    }, env))
                }
            },
        }
    }

    /// Burns `amount` of the borrower's synthetic asset against the position's
    /// debt: accrued interest first, then principal.
    pub fn repay_debt(&mut self, env: LedgerInfo, borrower: u64, amount: i128) -> (r: Result<(), Error>)
        requires
            old(self).wf(),
        ensures
            final(self).wf(),
            r is Ok <==> old(self).repay_spec(env, borrower, amount) is Ok,
            r matches Err(e) ==> old(self).repay_spec(env, borrower, amount) == Err::<CDP, Error>(e),
            r is Err ==> *final(self) == *old(self),
            r is Ok ==> final(self).cdps@ == old(self).cdps@.insert(key(borrower),
                old(self).repay_spec(env, borrower, amount)->Ok_0),
            r is Ok ==> final(self).cdp_of(borrower)->Some_0.accrued_interest >= 0,
            r is Ok ==> final(self).cdp_of(borrower)->Some_0.interest_paid
                >= old(self).cdp_of(borrower)->Some_0.interest_paid,
            r is Ok ==> final(self).token.balances_updated(&old(self).token, borrower,
                old(self).token.balance_of(borrower) - amount),
            r is Ok ==> final(self).token.same_allowances(&old(self).token),
            r is Ok ==> final(self).same_params(old(self)) && final(self).same_pool(old(self)),
    {
        let c = self.begin_user_op(env, borrower, amount)?;
        let debt = match c.asset_lent.checked_add(c.accrued_interest) {
            Some(v) => v,
            None => { return Err(Error::ArithmeticError); },
        };
        if amount > debt {
            return Err(Error::InvalidAmount);
        }
        let held = self.token.balance(borrower);
        if held < amount {
            return Err(Error::InsufficientBalance);
        }
        let to_interest = if amount < c.accrued_interest { amount } else { c.accrued_interest };
        let paid = match c.interest_paid.checked_add(to_interest) {
            Some(v) => v,
            None => { return Err(Error::ArithmeticError); },
        };
        let burned = self.token.burn(borrower, amount);
        assert(burned is Ok);
        let n = CDP {
            accrued_interest: c.accrued_interest - to_interest,
            asset_lent: c.asset_lent - (amount - to_interest),
            interest_paid: paid,
            ledger: env.sequence,
            timestamp: env.timestamp,
            ..c
        };
        self.cdps.set(borrower as u128, n);
        Ok(())
    }

    /// The position after `pay_interest`, or the error it fails with.
    pub open spec fn pay_interest_spec(&self, env: LedgerInfo, borrower: u64, amount: i128) -> Result<CDP, Error> {
        match self.user_op_spec(env, borrower, amount) {
            Err(e) => Err(e),
            Ok(c) => if amount > c.accrued_interest {
                Err(Error::InvalidAmount)
            } else if self.token.balance_of(borrower) < amount {
                Err(Error::InsufficientBalance)
            } else if !fits_i128(c.interest_paid + amount) {
                Err(Error::ArithmeticError)
            } else {
                Ok(Self::stamped(CDP {
                    accrued_interest: (c.accrued_interest - amount) as i128,
                    interest_paid: (c.interest_paid + amount) as i128,
                    ..c
                }, env))
            },
        }
    }

    /// Burns `amount` of the borrower's synthetic asset against accrued interest
    /// only, and returns the updated position.
    pub fn pay_interest(&mut self, env: LedgerInfo, borrower: u64, amount: i128) -> (r: Result<CDP, Error>)
        requires
            old(self).wf(),
        ensures
            final(self).wf(),
            r == old(self).pay_interest_spec(env, borrower, amount),
            r is Err ==> *final(self) == *old(self),
            r matches Ok(c) ==> final(self).cdps@ == old(self).cdps@.insert(key(borrower), c),
            r matches Ok(c) ==> c.interest_paid >= old(self).cdp_of(borrower)->Some_0.interest_paid,
            r is Ok ==> final(self).token.balances_updated(&old(self).token, borrower,
                old(self).token.balance_of(borrower) - amount),
            r is Ok ==> final(self).token.same_allowances(&old(self).token),
            r is Ok ==> final(self).same_params(old(self)) && final(self).same_pool(old(self)),
    {
        let c = self.begin_user_op(env, borrower, amount)?;
        if amount > c.accrued_interest {
            return Err(Error::InvalidAmount);
        }
        let held = self.token.balance(borrower);
        if held < amount {
            return Err(Error::InsufficientBalance);
        }
        let paid = match c.interest_paid.checked_add(amount) {
            Some(v) => v,
            None => { return Err(Error::ArithmeticError); },
        };
        let burned = self.token.burn(borrower, amount);
        assert(burned is Ok);
        let n = CDP {
            accrued_interest: c.accrued_interest - amount,
            interest_paid: paid,
            ledger: env.sequence,
            timestamp: env.timestamp,
            ..c
        };
        self.cdps.set(borrower as u128, n);
        Ok(n)
    }

    /// The position refreshed to `env`'s time with its ratio at `prices`; the
    /// common first steps of `freeze_cdp`, `liquidate_cdp` and `cdp`.
    pub open spec fn assess_spec(&self, env: LedgerInfo, prices: Prices, id: u64) -> Result<(CDP, i128), Error> {
        match self.cdp_of(id) {
            None => Err(Error::CDPNotFound),
            Some(c0) => if !accrual_ok(c0, self.annual_interest_rate, env.timestamp) {
                Err(Error::ArithmeticError)
            } else {
                let c = accrued_spec(c0, self.annual_interest_rate, env.timestamp);
                if !fits_i128(c.debt()) {
                    Err(Error::ArithmeticError)
                } else {
                    match price_pair_spec(prices) {
                        Err(e) => Err(e),
                        Ok((xp, pp)) => match ratio_spec(c.xlm_deposited as int, c.debt(), xp as int, pp as int) {
                            Err(e) => Err(e),
                            Ok(ratio) => Ok((c, ratio)),
                        },
                    }
                }
            },
        }
    }

    fn assess(&self, env: LedgerInfo, prices: Prices, id: u64) -> (r: Result<(CDP, i128), Error>)
        requires
            self.wf(),
        ensures
            r == self.assess_spec(env, prices, id),
            r matches Ok((c, _)) ==> c.wf(),
    {
        let c0 = self.load_cdp(id)?;
        let c = accrue_interest(c0, self.annual_interest_rate, env.timestamp)?;
        let debt = match c.asset_lent.checked_add(c.accrued_interest) {
            Some(v) => v,
            None => { return Err(Error::ArithmeticError); },
        };
        let (xp, pp) = price_pair(prices)?;
        let ratio = collateralization_ratio(c.xlm_deposited, debt, xp, pp)?;
        Ok((c, ratio))
    }

    /// `amount` of interest with its approval margin of a tenth, capped at `i128::MAX`.
    pub open spec fn interest_detail_spec(amount: i128) -> InterestDetail {
        let wide = amount + amount / 10;
        InterestDetail {
            amount,
            approval_amount: if wide > i128::MAX { i128::MAX } else { wide as i128 },
        }
    }

    fn interest_detail(amount: i128) -> (r: InterestDetail)
        requires
            amount >= 0,
        ensures
            r == Self::interest_detail_spec(amount),
            r.approval_amount >= amount,
    {
        let margin = amount / 10;
        let approval_amount = match amount.checked_add(margin) {
            Some(v) => v,
            None => i128::MAX,
        };
        InterestDetail { amount, approval_amount }
    }

    /// Reads `id`'s position at `env`'s time and at `prices`, without changing it.
    pub fn cdp(&self, env: LedgerInfo, prices: Prices, id: u64) -> (r: Result<CDPView, Error>)
        requires
            self.wf(),
        ensures
            r is Ok <==> self.assess_spec(env, prices, id) is Ok,
            r matches Err(e) ==> self.assess_spec(env, prices, id) == Err::<(CDP, i128), Error>(e),
            r matches Ok(v) ==> ({
                let (c, ratio) = self.assess_spec(env, prices, id)->Ok_0;
                &&& v.id == c.id
                &&& v.xlm_deposited == c.xlm_deposited
                &&& v.asset_lent == c.asset_lent
                &&& v.accrued_interest.amount == c.accrued_interest
                &&& v.interest_paid == c.interest_paid
                &&& v.last_interest_time == c.last_interest_time
                &&& v.collateralization_ratio == ratio
                &&& v.status == status_view(c, Ok(ratio), self.min_collat_ratio)
            }),
    {
        let (c, ratio) = self.assess(env, prices, id)?;
        let status = if c.status == CDPStatus::Open && ratio < self.min_collat_ratio as i128 {
            CDPStatus::Insolvent
        } else {
            c.status
        };
        Ok(CDPView {
            id: c.id,
            xlm_deposited: c.xlm_deposited,
            asset_lent: c.asset_lent,
            accrued_interest: Self::interest_detail(c.accrued_interest),
            interest_paid: c.interest_paid,
            last_interest_time: c.last_interest_time,
            collateralization_ratio: ratio,
            status,
        })
    }

    /// Interest `id` owes at `env`'s time, with the amount to approve for paying it.
    pub fn get_accrued_interest(&self, env: LedgerInfo, id: u64) -> (r: Result<InterestDetail, Error>)
        requires
            self.wf(),
        ensures
            r is Ok <==> (self.cdp_of(id) matches Some(c) && accrual_ok(c, self.annual_interest_rate, env.timestamp)),
            r matches Ok(d) ==> d.amount == accrued_spec(self.cdp_of(id)->Some_0, self.annual_interest_rate, env.timestamp).accrued_interest,
            r matches Ok(d) ==> d == Self::interest_detail_spec(d.amount) && d.approval_amount >= d.amount,
            r matches Err(e) ==> (e == Error::CDPNotFound <==> self.cdp_of(id) is None),
    {
        let c0 = self.load_cdp(id)?;
        let c = accrue_interest(c0, self.annual_interest_rate, env.timestamp)?;
        Ok(Self::interest_detail(c.accrued_interest))
    }

    /// The position after `freeze_cdp`, or the error it fails with: only an
    /// `Open` position whose ratio is below the minimum can be frozen.
    pub open spec fn freeze_spec(&self, env: LedgerInfo, prices: Prices, id: u64) -> Result<CDP, Error> {
        match self.cdp_of(id) {
            None => Err(Error::CDPNotFound),
            Some(c0) => if c0.status != CDPStatus::Open {
                Err(Error::CDPNotOpen)
            } else {
                match self.assess_spec(env, prices, id) {
                    Err(e) => Err(e),
                    Ok((c, ratio)) => if ratio >= self.min_collat_ratio {
                        Err(Error::CDPNotInsolvent)
                    } else {
                        Ok(Self::stamped(CDP { status: CDPStatus::Frozen, ..c }, env))
                    },
                }
            },
        }
    }

    /// Marks an insolvent position for liquidation. Anyone may call it.
    pub fn freeze_cdp(&mut self, env: LedgerInfo, prices: Prices, id: u64) -> (r: Result<(), Error>)
        requires
            old(self).wf(),
        ensures
            final(self).wf(),
            r is Ok <==> old(self).freeze_spec(env, prices, id) is Ok,
            r matches Err(e) ==> old(self).freeze_spec(env, prices, id) == Err::<CDP, Error>(e),
            r is Err ==> *final(self) == *old(self),
            r is Ok ==> final(self).cdps@ == old(self).cdps@.insert(key(id),
                old(self).freeze_spec(env, prices, id)->Ok_0),
            r is Ok ==> final(self).token == old(self).token,
            r is Ok ==> final(self).same_params(old(self)) && final(self).same_pool(old(self)),
    {
        let c0 = self.load_cdp(id)?;
        if c0.status != CDPStatus::Open {
            return Err(Error::CDPNotOpen);
        }
        let (c, ratio) = self.assess(env, prices, id)?;
        if ratio >= self.min_collat_ratio as i128 {
            return Err(Error::CDPNotInsolvent);
        }
        let n = CDP { status: CDPStatus::Frozen, ledger: env.sequence, timestamp: env.timestamp, ..c };
        self.cdps.set(id as u128, n);
        Ok(())
    }

    /// A ratio in basis points as the liquidation log stores it, within `u32`.
    pub open spec fn ratio_u32(r: i128) -> u32 {
        if r < 0 { 0 } else if r > u32::MAX { u32::MAX } else { r as u32 }
    }

    /// The outcome of `liquidate_cdp`: the position afterwards, the division of its
    /// debt and collateral, the pool afterwards, the running sum at which a drained
    /// epoch ended, and the log entry; or the error it fails with.
    pub open spec fn liquidate_spec(&self, env: LedgerInfo, prices: Prices, id: u64) -> Result<
        (CDP, LiquidationPlan, PoolState, Option<i128>, Liquidation),
        Error,
    > {
        match self.cdp_of(id) {
            None => Err(Error::CDPNotFound),
            Some(c0) => if c0.status != CDPStatus::Frozen {
                Err(Error::CDPNotFrozen)
            } else {
                match self.assess_spec(env, prices, id) {
                    Err(e) => Err(e),
                    Ok((c, ratio)) => {
                        let (xp, pp) = price_pair_spec(prices)->Ok_0;
                        let plan = plan_spec(c, self.pool.total_xasset as int, xp as int, pp as int);
                        let cancel = plan.debt_cancelled;
                        let absorbed = liquidation_spec(self.pool, cancel as int, plan.collateral_to_stakers as int);
                        if !plan_ok(c, xp as int, pp as int) || !fits_i128(c.interest_paid + plan.interest_repaid) {
                            Err(Error::ArithmeticError)
                        } else if cancel > 0 && absorbed is Err {
                            Err(absorbed->Err_0)
                        } else {
                            let (pool, terminal) = if cancel > 0 { absorbed->Ok_0 } else { (self.pool, None) };
                            let remaining = plan.remaining_lent + plan.remaining_interest;
                            let n = Self::stamped(CDP {
                                xlm_deposited: plan.remaining_collateral,
                                asset_lent: plan.remaining_lent,
                                accrued_interest: plan.remaining_interest,
                                interest_paid: (c.interest_paid + plan.interest_repaid) as i128,
                                status: if remaining == 0 { CDPStatus::Closed } else { CDPStatus::Frozen },
                                ..c
                            }, env);
                            let record = Liquidation {
                                cdp_id: id,
                                collateral_liquidated: (plan.collateral_to_stakers + plan.collateral_to_interest) as i128,
                                principal_repaid: plan.principal_repaid,
                                accrued_interest_repaid: plan.interest_repaid,
                                collateral_applied_to_interest: plan.collateral_to_interest,
                                collateralization_ratio: Self::ratio_u32(ratio),
                                xlm_price: xp,
                                xasset_price: pp,
                                ledger: env.sequence,
                                timestamp: env.timestamp,
                            };
                            Ok((n, plan, pool, terminal, record))
                        }
                    },
                }
            },
        }
    }

    /// Liquidates a frozen position against the stability pool: the pool's
    /// synthetic asset cancels as much of the debt as it holds, and is burned;
    /// the stakers are credited their share of the collateral. The position is
    /// `Closed` once no debt remains, and stays `Frozen` otherwise.
    pub fn liquidate_cdp(&mut self, env: LedgerInfo, prices: Prices, id: u64) -> (r: Result<Liquidation, Error>)
        requires
            old(self).wf(),
        ensures
            final(self).wf(),
            r is Ok <==> old(self).liquidate_spec(env, prices, id) is Ok,
            r matches Err(e) ==> old(self).liquidate_spec(env, prices, id) == Err::<
                (CDP, LiquidationPlan, PoolState, Option<i128>, Liquidation), Error>(e),
            r is Err ==> *final(self) == *old(self),
            r matches Ok(rec) ==> ({
                let (n, plan, pool, terminal, record) = old(self).liquidate_spec(env, prices, id)->Ok_0;
                &&& rec == record
                &&& final(self).cdps@ == old(self).cdps@.insert(key(id), n)
                &&& final(self).pool == pool
                &&& final(self).liquidations@ == old(self).liquidations@.push(record)
                &&& final(self).epoch_sums@ == (match terminal {
                    Some(t) => old(self).epoch_sums@.insert(old(self).pool.epoch as u128, t),
                    None => old(self).epoch_sums@,
                })
                &&& final(self).token.balances_updated(&old(self).token, old(self).address,
                    old(self).token.balance_of(old(self).address) - plan.debt_cancelled)
                &&& final(self).token.same_allowances(&old(self).token)
            }),
            r is Ok ==> final(self).stakers@ == old(self).stakers@ && final(self).same_params(old(self)),
    {
        let c0 = self.load_cdp(id)?;
        if c0.status != CDPStatus::Frozen {
            return Err(Error::CDPNotFrozen);
        }
        let (c, ratio) = self.assess(env, prices, id)?;
        let (xp, pp) = price_pair(prices)?;
        let plan = plan_liquidation(c, self.pool.total_xasset, xp, pp)?;
        proof {
            lemma_liquidation_conserves(c, self.pool.total_xasset as int, xp as int, pp as int);
        }
        let paid = match c.interest_paid.checked_add(plan.interest_repaid) {
            Some(v) => v,
            None => { return Err(Error::ArithmeticError); },
        };
        let cancel = plan.debt_cancelled;
        let (pool, terminal) = if cancel > 0 {
            apply_liquidation(self.pool, cancel, plan.collateral_to_stakers)?
        } else {
            (self.pool, None)
        };
        if cancel > 0 {
            let burned = self.token.burn(self.address, cancel);
            assert(burned is Ok);
        }
        let remaining = plan.remaining_lent + plan.remaining_interest;
        let n = CDP {
            xlm_deposited: plan.remaining_collateral,
            asset_lent: plan.remaining_lent,
            accrued_interest: plan.remaining_interest,
            interest_paid: paid,
            status: if remaining == 0 { CDPStatus::Closed } else { CDPStatus::Frozen },
            ledger: env.sequence,
            timestamp: env.timestamp,
            ..c
        };
        let ratio32: u32 = if ratio < 0 {
            0
        } else if ratio > u32::MAX as i128 {
            u32::MAX
        } else {
            ratio as u32
        };
        let record = Liquidation {
            cdp_id: id,
            collateral_liquidated: plan.collateral_to_stakers + plan.collateral_to_interest,
            principal_repaid: plan.principal_repaid,
            accrued_interest_repaid: plan.interest_repaid,
            collateral_applied_to_interest: plan.collateral_to_interest,
            collateralization_ratio: ratio32,
            xlm_price: xp,
            xasset_price: pp,
            ledger: env.sequence,
            timestamp: env.timestamp,
        };
        self.cdps.set(id as u128, n);
        match terminal {
            Some(t) => self.epoch_sums.set(self.pool.epoch as u128, t),
            None => {},
        }
        self.pool = pool;
        self.liquidations.push(record);
        Ok(record)
    }
}

} // verus!
