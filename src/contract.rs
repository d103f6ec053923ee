use vstd::prelude::*;

use crate::cdp::{CDPStatus, CDP};
use crate::error::Error;
use crate::fixed::fits_i128;
use crate::liquidation::Liquidation;
use crate::pool::{PoolState, StakePosition};
use crate::table::Table;
use crate::token::Ledger;

verus! {

/// Unpaid interest of a position, and an amount to approve for paying it that
/// leaves a tenth more room for interest that accrues before the payment lands.
#[derive(Clone, Copy, Debug, PartialEq, Eq, Structural)]
pub struct InterestDetail {
    pub amount: i128,
    pub approval_amount: i128,
}

/// A position as read at a given time and prices: interest refreshed, ratio and
/// status derived.
#[derive(Clone, Copy, Debug, PartialEq, Eq, Structural)]
pub struct CDPView {
    pub id: u64,
    pub xlm_deposited: i128,
    pub asset_lent: i128,
    pub accrued_interest: InterestDetail,
    pub interest_paid: i128,
    pub last_interest_time: u64,
    pub collateralization_ratio: i128,
    pub status: CDPStatus,
}

/// One synthetic-asset instance: its token ledger, debt positions, stability pool
/// and liquidation log. `address` is the instance's own account on the synthetic
/// ledger and on the collateral ledger.
pub struct TokenContract {
    pub address: u64,
    pub admin: u64,
    pub xlm_sac: u64,
    pub xlm_contract: u64,
    pub asset_contract: u64,
    pub pegged_asset: String,
    pub name: String,
    pub symbol: String,
    pub decimals: u32,
    pub min_collat_ratio: u32,
    pub annual_interest_rate: u32,
    pub token: Ledger,
    pub cdps: Table<CDP>,
    pub stakers: Table<StakePosition>,
    pub pool: PoolState,
    pub epoch_sums: Table<i128>,
    pub liquidations: Vec<Liquidation>,
}

pub open spec fn key(id: u64) -> u128 {
    id as u128
}

impl TokenContract {
    /// Tables and records are well formed; the instance's own account has no
    /// position and no stake, and holds at least the synthetic asset pooled.
    pub open spec fn wf(&self) -> bool {
        &&& self.token.wf()
        &&& self.cdps.wf()
        &&& self.stakers.wf()
        &&& self.epoch_sums.wf()
        &&& self.pool.wf()
        &&& forall|k: u128| #[trigger] self.cdps@.contains_key(k) ==> self.cdps@[k].wf()
        &&& forall|k: u128| #[trigger] self.stakers@.contains_key(k) ==> self.stakers@[k].wf()
        &&& !self.cdps@.contains_key(key(self.address))
        &&& !self.stakers@.contains_key(key(self.address))
        &&& self.token.balance_of(self.address) >= self.pool.total_xasset
    }

    pub open spec fn cdp_of(&self, id: u64) -> Option<CDP> {
        if self.cdps@.contains_key(key(id)) {
            Some(self.cdps@[key(id)])
        } else {
            None
        }
    }

    pub open spec fn position_of(&self, id: u64) -> Option<StakePosition> {
        if self.stakers@.contains_key(key(id)) {
            Some(self.stakers@[key(id)])
        } else {
            None
        }
    }

    /// Parameters and addresses are as in `o`.
    pub open spec fn same_params(&self, o: &TokenContract) -> bool {
        &&& self.address == o.address
        &&& self.admin == o.admin
        &&& self.xlm_sac == o.xlm_sac
        &&& self.xlm_contract == o.xlm_contract
        &&& self.asset_contract == o.asset_contract
        &&& self.pegged_asset == o.pegged_asset
        &&& self.name == o.name
        &&& self.symbol == o.symbol
        &&& self.decimals == o.decimals
        &&& self.min_collat_ratio == o.min_collat_ratio
        &&& self.annual_interest_rate == o.annual_interest_rate
    }

    /// The stability pool, its stakers and the liquidation log are as in `o`.
    pub open spec fn same_pool(&self, o: &TokenContract) -> bool {
        &&& self.stakers@ == o.stakers@
        &&& self.pool == o.pool
        &&& self.epoch_sums@ == o.epoch_sums@
        &&& self.liquidations@ == o.liquidations@
    }

    /// A fresh instance with no positions, no stakers and no balances.
    pub fn new(
        address: u64,
        admin: u64,
        xlm_sac: u64,
        xlm_contract: u64,
        asset_contract: u64,
        pegged_asset: String,
        min_collat_ratio: u32,
        name: String,
        symbol: String,
        decimals: u32,
        annual_interest_rate: u32,
    ) -> (r: TokenContract)
        ensures
            r.wf(),
            r.address == address,
            r.admin == admin,
            r.xlm_sac == xlm_sac,
            r.xlm_contract == xlm_contract,
            r.asset_contract == asset_contract,
            r.pegged_asset == pegged_asset,
            r.min_collat_ratio == min_collat_ratio,
            r.name == name,
            r.symbol == symbol,
            r.decimals == decimals,
            r.annual_interest_rate == annual_interest_rate,
            r.cdps@ == Map::<u128, CDP>::empty(),
            r.stakers@ == Map::<u128, StakePosition>::empty(),
            r.pool == PoolState::new_spec(),
            r.liquidations@.len() == 0,
            r.epoch_sums@ == Map::<u128, i128>::empty(),
            forall|id: u64| #[trigger] r.token.balance_of(id) == 0,
    {
        TokenContract {
            address,
            admin,
            xlm_sac,
            xlm_contract,
            asset_contract,
            pegged_asset,
            name,
            symbol,
            decimals,
            min_collat_ratio,
            annual_interest_rate,
            token: Ledger::new(),
            cdps: Table::new(),
            stakers: Table::new(),
            pool: PoolState::new(),
            epoch_sums: Table::new(),
            liquidations: Vec::new(),
        }
    }

    pub(crate) fn load_cdp(&self, id: u64) -> (r: Result<CDP, Error>)
        requires
            self.wf(),
        ensures
            r == (match self.cdp_of(id) {
                Some(c) => Ok::<CDP, Error>(c),
                None => Err(Error::CDPNotFound),
            }),
            r matches Ok(c) ==> c.wf(),
    {
        match self.cdps.get(id as u128) {
            Some(c) => Ok(c),
            None => Err(Error::CDPNotFound),
        }
    }

    /// Changes the minimum collateralization ratio; only the admin may. Returns the new value.
    pub fn set_min_collat_ratio(&mut self, caller: u64, value: u32) -> (r: Result<u32, Error>)
        requires
            old(self).wf(),
        ensures
            final(self).wf(),
            r is Ok <==> caller == old(self).admin,
            r is Err ==> r == Err::<u32, Error>(Error::Unauthorized) && *final(self) == *old(self),
            r is Ok ==> r == Ok::<u32, Error>(value) && final(self).min_collat_ratio == value,
            r is Ok ==> *final(self) == (TokenContract { min_collat_ratio: value, ..*old(self) }),
    {
        if caller != self.admin {
            return Err(Error::Unauthorized);
        }
        self.min_collat_ratio = value;
        Ok(value)
    }

    pub fn minimum_collateralization_ratio(&self) -> (r: u32)
        ensures
            r == self.min_collat_ratio,
    {
        self.min_collat_ratio
    }

    pub fn xlm_contract(&self) -> (r: u64)
        ensures
            r == self.xlm_contract,
    {
        self.xlm_contract
    }

    pub fn asset_contract(&self) -> (r: u64)
        ensures
            r == self.asset_contract,
    {
        self.asset_contract
    }

    pub fn xlm_sac(&self) -> (r: u64)
        ensures
            r == self.xlm_sac,
    {
        self.xlm_sac
    }

    pub fn decimals(&self) -> (r: u32)
        ensures
            r == self.decimals,
    {
        self.decimals
    }

    pub fn name(&self) -> (r: String)
        ensures
            r@ == self.name@,
    {
        self.name.clone()
    }

    pub fn symbol(&self) -> (r: String)
        ensures
            r@ == self.symbol@,
    {
        self.symbol.clone()
    }

    /// Synthetic-asset balance of `id`.
    pub fn balance(&self, id: u64) -> (r: i128)
        requires
            self.wf(),
        ensures
            r == self.token.balance_of(id),
    {
        self.token.balance(id)
    }

    /// Mints `amount` of the synthetic asset to `to`; only the admin may.
    pub fn mint(&mut self, caller: u64, to: u64, amount: i128) -> (r: Result<(), Error>)
        requires
            old(self).wf(),
        ensures
            final(self).wf(),
            caller != old(self).admin ==> r == Err::<(), Error>(Error::Unauthorized),
            r is Ok <==> caller == old(self).admin && amount >= 0 && fits_i128(
                old(self).token.balance_of(to) + amount,
            ),
            caller == old(self).admin && amount < 0 ==> r == Err::<(), Error>(Error::InvalidAmount),
            caller == old(self).admin && amount >= 0 && !fits_i128(old(self).token.balance_of(to) + amount)
                ==> r == Err::<(), Error>(Error::ArithmeticError),
            r is Err ==> *final(self) == *old(self),
            r is Ok ==> final(self).token.balances_updated(&old(self).token, to,
                old(self).token.balance_of(to) + amount),
            r is Ok ==> final(self).token.same_allowances(&old(self).token),
            r is Ok ==> final(self).cdps@ == old(self).cdps@ && final(self).same_params(old(self))
                && final(self).same_pool(old(self)),
    {
        if caller != self.admin {
            return Err(Error::Unauthorized);
        }
        self.token.mint(to, amount)
    }

    /// Moves `amount` of the synthetic asset between two accounts. The pool's
    /// holdings, on the instance's own account, move only through the pool.
    pub fn transfer(&mut self, from: u64, to: u64, amount: i128) -> (r: Result<(), Error>)
        requires
            old(self).wf(),
        ensures
            final(self).wf(),
            r == (if from == old(self).address {
                Err::<(), Error>(Error::Unauthorized)
            } else {
                match old(self).token.transfer_error(from, to, amount as int) {
                    Some(e) => Err::<(), Error>(e),
                    None => Ok(()),
                }
            }),
            r is Err ==> *final(self) == *old(self),
            r is Ok ==> final(self).token.balances_moved(&old(self).token, from, to, amount as int),
            r is Ok ==> final(self).token.same_allowances(&old(self).token),
            r is Ok ==> final(self).cdps@ == old(self).cdps@ && final(self).same_params(old(self))
                && final(self).same_pool(old(self)),
    {
        if from == self.address {
            return Err(Error::Unauthorized);
        }
        self.token.transfer(from, to, amount)
    }

    /// Lets `spender` move up to `amount` of `from`'s synthetic asset until `expiration_ledger`.
    pub fn approve(&mut self, from: u64, spender: u64, amount: i128, expiration_ledger: u32) -> (r: Result<(), Error>)
        requires
            old(self).wf(),
        ensures
            final(self).wf(),
            r is Ok <==> amount >= 0,
            r is Err ==> r == Err::<(), Error>(Error::InvalidAmount) && *final(self) == *old(self),
            r is Ok ==> final(self).token.allowance_record(from, spender) == (crate::token::Allowance {
                amount,
                expiration_ledger,
            }),
            r is Ok ==> forall|f: u64, s: u64|
                !(f == from && s == spender) ==> #[trigger] final(self).token.allowance_record(f, s)
                    == old(self).token.allowance_record(f, s),
            forall|x: u64| #[trigger] final(self).token.balance_of(x) == old(self).token.balance_of(x),
            final(self).cdps@ == old(self).cdps@ && final(self).same_params(old(self))
                && final(self).same_pool(old(self)),
    {
        self.token.approve(from, spender, amount, expiration_ledger)
    }

    /// What `spender` may still move out of `from`'s balance at ledger `seq`.
    pub fn allowance(&self, from: u64, spender: u64, seq: u32) -> (r: i128)
        requires
            self.wf(),
        ensures
            r == self.token.allowance_at(from, spender, seq),
    {
        self.token.allowance(from, spender, seq)
    }

    /// `spender` moves `amount` of `from`'s synthetic asset to `to` at ledger `seq`;
    /// never out of the instance's own account.
    pub fn transfer_from(&mut self, spender: u64, from: u64, to: u64, amount: i128, seq: u32) -> (r: Result<(), Error>)
        requires
            old(self).wf(),
        ensures
            final(self).wf(),
            r == (if from == old(self).address {
                Err::<(), Error>(Error::Unauthorized)
            } else {
                match old(self).token.transfer_from_error(spender, from, to, amount as int, seq) {
                    Some(e) => Err::<(), Error>(e),
                    None => Ok(()),
                }
            }),
            r is Err ==> *final(self) == *old(self),
            r is Ok ==> final(self).token.balances_moved(&old(self).token, from, to, amount as int),
            r is Ok ==> final(self).token.allowance_record(from, spender).amount
                == old(self).token.allowance_at(from, spender, seq) - amount,
            r is Ok ==> final(self).cdps@ == old(self).cdps@ && final(self).same_params(old(self))
                && final(self).same_pool(old(self)),
    {
        if from == self.address {
            return Err(Error::Unauthorized);
        }
        self.token.transfer_from(spender, from, to, amount, seq)
    }
}

} // verus!
