use vstd::prelude::*;
use vstd::arithmetic::div_mod::lemma_div_by_multiple;

use crate::contract::{key, TokenContract};
use crate::error::Error;
use crate::fixed::{fits_i128, mul_div_spec};
use crate::pool::{
    collateral_gain, effective_deposit, effective_ok, effective_spec, gain_ok, gain_spec, PoolState,
    StakePosition,
};
use crate::prices::LedgerInfo;
use crate::token::Ledger;

verus! {

// The stability pool as stakers see it: stake, withdraw, claim and the totals.
impl TokenContract {
    /// The running sum at which `pos`'s epoch ended, when it has ended and was
    /// recorded; otherwise the position's own snapshot, which earns nothing more.
    pub open spec fn terminal_for(&self, pos: StakePosition) -> i128 {
        if self.epoch_sums@.contains_key(pos.epoch as u128) {
            self.epoch_sums@[pos.epoch as u128]
        } else {
            pos.compounded_constant
        }
    }

    /// A staker's effective deposit and the collateral earned since its snapshot
    /// (never counted below zero); both zero for one who never staked.
    pub open spec fn standing_spec(&self, id: u64) -> Result<(i128, i128), Error> {
        match self.position_of(id) {
            None => Ok((0, 0)),
            Some(p) => if !effective_ok(p, self.pool) || !gain_ok(p, self.pool, self.terminal_for(p)) {
                Err(Error::ArithmeticError)
            } else {
                let g = gain_spec(p, self.pool, self.terminal_for(p));
                Ok((effective_spec(p, self.pool) as i128, if g < 0 { 0 } else { g as i128 }))
            },
        }
    }

    fn standing(&self, id: u64) -> (r: Result<(i128, i128), Error>)
        requires
            self.wf(),
        ensures
            r == self.standing_spec(id),
            r matches Ok((e, g)) ==> g >= 0,
    {
        match self.stakers.get(id as u128) {
            None => Ok((0, 0)),
            Some(p) => {
                let terminal = match self.epoch_sums.get(p.epoch as u128) {
                    Some(t) => t,
                    None => p.compounded_constant,
                };
                let eff = effective_deposit(p, self.pool)?;
                let g = collateral_gain(p, self.pool, terminal)?;
                Ok((eff, if g < 0 { 0 } else { g }))
            },
        }
    }

    /// Collateral already set aside for `id` before its last snapshot.
    pub open spec fn pending_of(&self, id: u64) -> i128 {
        match self.position_of(id) {
            Some(p) => p.pending_rewards,
            None => 0,
        }
    }

    pub open spec fn claimed_of(&self, id: u64) -> i128 {
        match self.position_of(id) {
            Some(p) => p.rewards_claimed,
            None => 0,
        }
    }

    /// The snapshot a staker holds after an operation leaves it `deposit` and
    /// `pending` collateral, at the current pool.
    pub open spec fn snapshot(&self, env: LedgerInfo, id: u64, deposit: int, pending: int, claimed: int) -> StakePosition {
        StakePosition {
            id,
            xasset_deposit: deposit as i128,
            product_constant: self.pool.product,
            compounded_constant: self.pool.sum,
            rewards_claimed: claimed as i128,
            pending_rewards: pending as i128,
            epoch: self.pool.epoch,
            ledger: env.sequence,
            timestamp: env.timestamp,
        }
    }

    /// The staker's new snapshot after `stake`, or the error it fails with.
    pub open spec fn stake_spec(&self, env: LedgerInfo, staker: u64, amount: i128) -> Result<StakePosition, Error> {
        if amount <= 0 {
            Err(Error::InvalidAmount)
        } else {
            match self.standing_spec(staker) {
                Err(e) => Err(e),
                Ok((eff, g)) => if !fits_i128(eff + amount) || !fits_i128(self.pending_of(staker) + g)
                    || !fits_i128(self.pool.total_xasset + amount) {
                    Err(Error::ArithmeticError)
                } else {
                    match self.token.transfer_error(staker, self.address, amount as int) {
                        Some(e) => Err(e),
                        None => Ok(self.snapshot(env, staker, eff + amount, self.pending_of(staker) + g,
                            self.claimed_of(staker) as int)),
                    }
                },
            }
        }
    }

    /// Moves `amount` of the staker's synthetic asset into the stability pool. Its
    /// deposit becomes its current effective deposit plus `amount`, and the
    /// collateral it had earned is set aside for its next claim.
    pub fn stake(&mut self, env: LedgerInfo, staker: u64, amount: i128) -> (r: Result<(), Error>)
        requires
            old(self).wf(),
        ensures
            final(self).wf(),
            r is Ok <==> old(self).stake_spec(env, staker, amount) is Ok,
            r matches Err(e) ==> old(self).stake_spec(env, staker, amount) == Err::<StakePosition, Error>(e),
            r is Err ==> *final(self) == *old(self),
            r is Ok ==> final(self).stakers@ == old(self).stakers@.insert(key(staker),
                old(self).stake_spec(env, staker, amount)->Ok_0),
            r is Ok ==> final(self).pool == (PoolState {
                total_xasset: (old(self).pool.total_xasset + amount) as i128,
                ..old(self).pool
            }),
            r is Ok ==> final(self).token.balances_moved(&old(self).token, staker, old(self).address, amount as int),
            r is Ok ==> final(self).token.same_allowances(&old(self).token),
            r is Ok ==> final(self).cdps@ == old(self).cdps@ && final(self).same_params(old(self)),
            r is Ok ==> final(self).epoch_sums@ == old(self).epoch_sums@
                && final(self).liquidations@ == old(self).liquidations@,
    {
        if amount <= 0 {
            return Err(Error::InvalidAmount);
        }
        let (eff, g) = self.standing(staker)?;
        let (pending, claimed) = match self.stakers.get(staker as u128) {
            Some(p) => (p.pending_rewards, p.rewards_claimed),
            None => (0, 0),
        };
        let deposit = match eff.checked_add(amount) {
            Some(v) => v,
            None => { return Err(Error::ArithmeticError); },
        };
        let pending = match pending.checked_add(g) {
            Some(v) => v,
            None => { return Err(Error::ArithmeticError); },
        };
        let total = match self.pool.total_xasset.checked_add(amount) {
            Some(v) => v,
            None => { return Err(Error::ArithmeticError); },
        };
        self.token.transfer(staker, self.address, amount)?;
        let pos = StakePosition {
            id: staker,
            xasset_deposit: deposit,
            product_constant: self.pool.product,
            compounded_constant: self.pool.sum,
            rewards_claimed: claimed,
            pending_rewards: pending,
            epoch: self.pool.epoch,
            ledger: env.sequence,
            timestamp: env.timestamp,
        };
        self.stakers.set(staker as u128, pos);
        self.pool = PoolState { total_xasset: total, ..self.pool };
        Ok(())
    }

    /// The staker's new snapshot after `withdraw`, or the error it fails with.
    pub open spec fn withdraw_spec(&self, env: LedgerInfo, staker: u64, amount: i128) -> Result<StakePosition, Error> {
        if amount <= 0 {
            Err(Error::InvalidAmount)
        } else if self.position_of(staker) is None {
            Err(Error::InsufficientStake)
        } else {
            match self.standing_spec(staker) {
                Err(e) => Err(e),
                Ok((eff, g)) => if amount > eff {
                    Err(Error::InsufficientStake)
                } else if !fits_i128(self.pending_of(staker) + g) {
                    Err(Error::ArithmeticError)
                } else {
                    match self.token.transfer_error(self.address, staker, amount as int) {
                        Some(e) => Err(e),
                        None => Ok(self.snapshot(env, staker, eff - amount, self.pending_of(staker) + g,
                            self.claimed_of(staker) as int)),
                    }
                },
            }
        }
    }

    /// Pool total after `amount` leaves it; never below zero.
    pub open spec fn total_after_withdraw(total: i128, amount: i128) -> i128 {
        if total >= amount { (total - amount) as i128 } else { 0 }
    }

    /// Returns `amount` of the staker's effective deposit to it.
    pub fn withdraw(&mut self, env: LedgerInfo, staker: u64, amount: i128) -> (r: Result<(), Error>)
        requires
            old(self).wf(),
        ensures
            final(self).wf(),
            r is Ok <==> old(self).withdraw_spec(env, staker, amount) is Ok,
            r matches Err(e) ==> old(self).withdraw_spec(env, staker, amount) == Err::<StakePosition, Error>(e),
            r is Err ==> *final(self) == *old(self),
            r is Ok ==> final(self).stakers@ == old(self).stakers@.insert(key(staker),
                old(self).withdraw_spec(env, staker, amount)->Ok_0),
            r is Ok ==> final(self).pool == (PoolState {
                total_xasset: Self::total_after_withdraw(old(self).pool.total_xasset, amount),
                ..old(self).pool
            }),
            r is Ok ==> final(self).token.balances_moved(&old(self).token, old(self).address, staker, amount as int),
            r is Ok ==> final(self).token.same_allowances(&old(self).token),
            r is Ok ==> final(self).cdps@ == old(self).cdps@ && final(self).same_params(old(self)),
            r is Ok ==> final(self).epoch_sums@ == old(self).epoch_sums@
                && final(self).liquidations@ == old(self).liquidations@,
    {
        if amount <= 0 {
            return Err(Error::InvalidAmount);
        }
        let (pending, claimed) = match self.stakers.get(staker as u128) {
            Some(p) => (p.pending_rewards, p.rewards_claimed),
            None => { return Err(Error::InsufficientStake); },
        };
        let (eff, g) = self.standing(staker)?;
        if amount > eff {
            return Err(Error::InsufficientStake);
        }
        let pending = match pending.checked_add(g) {
            Some(v) => v,
            None => { return Err(Error::ArithmeticError); },
        };
        self.token.transfer(self.address, staker, amount)?;
        let pos = StakePosition {
            id: staker,
            xasset_deposit: eff - amount,
            product_constant: self.pool.product,
            compounded_constant: self.pool.sum,
            rewards_claimed: claimed,
            pending_rewards: pending,
            epoch: self.pool.epoch,
            ledger: env.sequence,
            timestamp: env.timestamp,
        };
        self.stakers.set(staker as u128, pos);
        let total = if self.pool.total_xasset >= amount { self.pool.total_xasset - amount } else { 0 };
        self.pool = PoolState { total_xasset: total, ..self.pool };
        Ok(())
    }

    /// Collateral paid by `claim` and the staker's new snapshot, or the error it fails with.
    pub open spec fn claim_spec(&self, xlm: &Ledger, env: LedgerInfo, staker: u64) -> Result<(i128, StakePosition), Error> {
        if self.position_of(staker) is None {
            Err(Error::InsufficientStake)
        } else {
            match self.standing_spec(staker) {
                Err(e) => Err(e),
                Ok((eff, g)) => {
                    let payout = self.pending_of(staker) + g;
                    if !fits_i128(payout) || !fits_i128(self.claimed_of(staker) + payout) {
                        Err(Error::ArithmeticError)
                    } else if payout > 0 && xlm.transfer_error(self.address, staker, payout) is Some {
                        Err(xlm.transfer_error(self.address, staker, payout)->Some_0)
                    } else {
                        Ok((payout as i128, self.snapshot(env, staker, eff as int, 0, self.claimed_of(staker) + payout)))
                    }
                },
            }
        }
    }

    /// Pays the staker the collateral it has earned and set aside, and returns
    /// the amount paid.
    pub fn claim(&mut self, xlm: &mut Ledger, env: LedgerInfo, staker: u64) -> (r: Result<i128, Error>)
        requires
            old(self).wf(),
            old(xlm).wf(),
        ensures
            final(self).wf(),
            final(xlm).wf(),
            r is Ok <==> old(self).claim_spec(old(xlm), env, staker) is Ok,
            r matches Err(e) ==> old(self).claim_spec(old(xlm), env, staker) == Err::<(i128, StakePosition), Error>(e),
            r matches Ok(v) ==> v == old(self).claim_spec(old(xlm), env, staker)->Ok_0.0 && v >= 0,
            r is Err ==> *final(self) == *old(self) && *final(xlm) == *old(xlm),
            r is Ok ==> final(self).stakers@ == old(self).stakers@.insert(key(staker),
                old(self).claim_spec(old(xlm), env, staker)->Ok_0.1),
            r matches Ok(v) ==> (v > 0 ==> final(xlm).balances_moved(old(xlm), old(self).address, staker, v as int)),
            r matches Ok(v) ==> (v == 0 ==> *final(xlm) == *old(xlm)),
            r is Ok ==> final(self).pool == old(self).pool && final(self).token == old(self).token,
            r is Ok ==> final(self).cdps@ == old(self).cdps@ && final(self).same_params(old(self)),
            r is Ok ==> final(self).epoch_sums@ == old(self).epoch_sums@
                && final(self).liquidations@ == old(self).liquidations@,
    {
        let (pending, claimed) = match self.stakers.get(staker as u128) {
            Some(p) => (p.pending_rewards, p.rewards_claimed),
            None => { return Err(Error::InsufficientStake); },
        };
        let (eff, g) = self.standing(staker)?;
        let payout = match pending.checked_add(g) {
            Some(v) => v,
            None => { return Err(Error::ArithmeticError); },
        };
        let claimed = match claimed.checked_add(payout) {
            Some(v) => v,
            None => { return Err(Error::ArithmeticError); },
        };
        if payout > 0 {
            xlm.transfer(self.address, staker, payout)?;
        }
        let pos = StakePosition {
            id: staker,
            xasset_deposit: eff,
            product_constant: self.pool.product,
            compounded_constant: self.pool.sum,
            rewards_claimed: claimed,
            pending_rewards: 0,
            epoch: self.pool.epoch,
            ledger: env.sequence,
            timestamp: env.timestamp,
        };
        self.stakers.set(staker as u128, pos);
        Ok(payout)
    }

    /// The staker's current effective deposit; zero for one who never staked.
    pub fn get_staker_deposit_amount(&self, staker: u64) -> (r: Result<i128, Error>)
        requires
            self.wf(),
        ensures
            r == (match self.standing_spec(staker) {
                Ok((eff, _)) => Ok::<i128, Error>(eff),
                Err(e) => Err(e),
            }),
    {
        let (eff, _) = self.standing(staker)?;
        Ok(eff)
    }

    /// The sum of the stakers' effective deposits, as the pool tracks it.
    pub fn get_total_xasset(&self) -> (r: i128)
        ensures
            r == self.pool.total_xasset,
    {
        self.pool.total_xasset
    }
}

/// `x` scaled by a product that has not moved since the snapshot is `x` itself.
proof fn lemma_unscaled(x: int, p: int)
    requires
        x >= 0,
        p > 0,
    ensures
        mul_div_spec(x, p, p) == x,
{
    lemma_div_by_multiple(x, p);
    assert(x * p == p * x) by (nonlinear_arith);
}

/// A stake of `amount` raises the staker's effective deposit and the pool's total
/// by exactly `amount`, and leaves every other staker's effective deposit as it
/// was; a withdrawal of `amount` lowers both by exactly `amount` (the total,
/// where it holds that much). So stakes and withdrawals keep the total equal to
/// the sum of the effective deposits whenever it was.
pub proof fn lemma_stake_and_withdraw_keep_pool_accounting(
    c: TokenContract,
    env: LedgerInfo,
    staker: u64,
    amount: i128,
    other: u64,
)
    requires
        c.wf(),
        other != staker,
    ensures
        c.stake_spec(env, staker, amount) is Ok ==> ({
            let pos = c.stake_spec(env, staker, amount)->Ok_0;
            let pool = PoolState { total_xasset: (c.pool.total_xasset + amount) as i128, ..c.pool };
            &&& effective_spec(pos, pool) == c.standing_spec(staker)->Ok_0.0 + amount
            &&& pool.total_xasset == c.pool.total_xasset + amount
            &&& (c.position_of(other) matches Some(p) ==> effective_spec(p, pool) == effective_spec(p, c.pool))
        }),
        c.withdraw_spec(env, staker, amount) is Ok ==> ({
            let pos = c.withdraw_spec(env, staker, amount)->Ok_0;
            let pool = PoolState {
                total_xasset: TokenContract::total_after_withdraw(c.pool.total_xasset, amount),
                ..c.pool
            };
            &&& effective_spec(pos, pool) == c.standing_spec(staker)->Ok_0.0 - amount
            &&& (c.pool.total_xasset >= amount ==> pool.total_xasset == c.pool.total_xasset - amount)
            &&& (c.position_of(other) matches Some(p) ==> effective_spec(p, pool) == effective_spec(p, c.pool))
        }),
{
    if c.stake_spec(env, staker, amount) is Ok || c.withdraw_spec(env, staker, amount) is Ok {
        let eff = c.standing_spec(staker)->Ok_0.0;
        if let Some(p) = c.position_of(staker) {
            assert(c.stakers@.contains_key(key(staker)));
            assert(p.wf());
            if p.epoch == c.pool.epoch {
                assert(p.xasset_deposit as int * c.pool.product as int >= 0) by (nonlinear_arith)
                    requires p.xasset_deposit >= 0, c.pool.product > 0;
            }
        }
        assert(eff >= 0);
        if c.stake_spec(env, staker, amount) is Ok {
            lemma_unscaled(eff + amount, c.pool.product as int);
        }
        if c.withdraw_spec(env, staker, amount) is Ok {
            lemma_unscaled(eff - amount, c.pool.product as int);
        }
    }
}

} // verus!
