use vstd::prelude::*;
use vstd::arithmetic::div_mod::{lemma_div_by_multiple, lemma_fundamental_div_mod};

use crate::error::Error;
use crate::fixed::{checked_sum, fits_i128, mul_div, mul_div_ok, mul_div_spec, ONE};

verus! {

/// Below this running product the pool counts as drained: 10^-9 of `ONE`.
pub const EPSILON: i128 = 100_000;

/// A staker's snapshot, taken at its last deposit, withdrawal or claim.
/// `pending_rewards` holds collateral earned before the last snapshot and not yet claimed.
#[derive(Clone, Copy, Debug, PartialEq, Eq, Structural)]
pub struct StakePosition {
    pub id: u64,
    pub xasset_deposit: i128,
    pub product_constant: i128,
    pub compounded_constant: i128,
    pub rewards_claimed: i128,
    pub pending_rewards: i128,
    pub epoch: u64,
    pub ledger: u32,
    pub timestamp: u64,
}

/// Pool-wide trackers: the running product `P`, the running sum `S`, the epoch,
/// and the total of the stakers' effective deposits.
#[derive(Clone, Copy, Debug, PartialEq, Eq, Structural)]
pub struct PoolState {
    pub product: i128,
    pub sum: i128,
    pub epoch: u64,
    pub total_xasset: i128,
}

impl PoolState {
    pub open spec fn wf(&self) -> bool {
        &&& 0 < self.product <= ONE
        &&& self.sum >= 0
        &&& self.total_xasset >= 0
    }

    pub open spec fn new_spec() -> PoolState {
        PoolState { product: ONE, sum: 0, epoch: 0, total_xasset: 0 }
    }

    /// The pool of a fresh instance.
    pub fn new() -> (r: PoolState)
        ensures
            r.wf(),
            r == PoolState::new_spec(),
    {
        PoolState { product: ONE, sum: 0, epoch: 0, total_xasset: 0 }
    }
}

impl StakePosition {
    pub open spec fn wf(&self) -> bool {
        &&& self.xasset_deposit >= 0
        &&& self.product_constant > 0
        &&& self.compounded_constant >= 0
        &&& self.rewards_claimed >= 0
        &&& self.pending_rewards >= 0
    }
}

/// Effective deposit of `pos` in `pool`: nothing once its epoch has ended,
/// else its deposit scaled by how much `P` shrank since the snapshot.
pub open spec fn effective_spec(pos: StakePosition, pool: PoolState) -> int {
    if pos.epoch != pool.epoch {
        0
    } else {
        mul_div_spec(pos.xasset_deposit as int, pool.product as int, pos.product_constant as int)
    }
}

pub open spec fn effective_ok(pos: StakePosition, pool: PoolState) -> bool {
    pos.epoch != pool.epoch || mul_div_ok(
        pos.xasset_deposit as int,
        pool.product as int,
        pos.product_constant as int,
    )
}

pub fn effective_deposit(pos: StakePosition, pool: PoolState) -> (r: Result<i128, Error>)
    requires
        pos.wf(),
    ensures
        r is Ok <==> effective_ok(pos, pool),
        r matches Ok(v) ==> v == effective_spec(pos, pool),
        r matches Err(e) ==> e == Error::ArithmeticError,
{
    if pos.epoch != pool.epoch {
        Ok(0)
    } else {
        mul_div(pos.xasset_deposit, pool.product, pos.product_constant)
    }
}

/// The running sum that `pos` is paid against: the pool's own in the current
/// epoch, else the value at which the position's epoch ended.
pub open spec fn sum_for(pos: StakePosition, pool: PoolState, terminal: i128) -> i128 {
    if pos.epoch == pool.epoch { pool.sum } else { terminal }
}

/// Collateral earned by `pos` since its snapshot.
pub open spec fn gain_spec(pos: StakePosition, pool: PoolState, terminal: i128) -> int {
    mul_div_spec(
        pos.xasset_deposit as int,
        sum_for(pos, pool, terminal) - pos.compounded_constant,
        pos.product_constant as int,
    )
}

pub open spec fn gain_ok(pos: StakePosition, pool: PoolState, terminal: i128) -> bool {
    &&& fits_i128(sum_for(pos, pool, terminal) - pos.compounded_constant)
    &&& mul_div_ok(
        pos.xasset_deposit as int,
        sum_for(pos, pool, terminal) - pos.compounded_constant,
        pos.product_constant as int,
    )
}

/// Collateral earned by `pos` since its snapshot; `terminal` is the running sum
/// at which the position's epoch ended, used when that epoch is over.
pub fn collateral_gain(pos: StakePosition, pool: PoolState, terminal: i128) -> (r: Result<
    i128,
    Error,
>)
    requires
        pos.wf(),
    ensures
        r is Ok <==> gain_ok(pos, pool, terminal),
        r matches Ok(v) ==> v == gain_spec(pos, pool, terminal),
        r matches Err(e) ==> e == Error::ArithmeticError,
{
    let s = if pos.epoch == pool.epoch { pool.sum } else { terminal };
    let delta = match s.checked_sub(pos.compounded_constant) {
        Some(d) => d,
        None => {
            return Err(Error::ArithmeticError);
        },
    };
    mul_div(pos.xasset_deposit, delta, pos.product_constant)
}

/// The pool once `debt` of it has been burned against `collateral` gained, with
/// the running sum at which the epoch ended when the liquidation drained it.
/// The running sum grows by `collateral * ONE / D`, the collateral per unit of
/// the pool `D` before the liquidation; otherwise `P` shrinks by `(D - debt) / D`.
/// A drain is a `debt` that reaches the whole pool, or a product that falls
/// under `EPSILON`; it starts a new epoch with `P = ONE` and `S = 0`.
pub open spec fn liquidation_spec(pool: PoolState, debt: int, collateral: int) -> Result<
    (PoolState, Option<i128>),
    Error,
> {
    let d = pool.total_xasset as int;
    let reward = mul_div_spec(collateral, ONE as int, d);
    let product = mul_div_spec(pool.product as int, d - debt, d);
    let fresh = PoolState {
        product: ONE,
        sum: 0,
        epoch: (pool.epoch + 1) as u64,
        total_xasset: 0,
    };
    if !mul_div_ok(collateral, ONE as int, d) || !fits_i128(pool.sum + reward) {
        Err(Error::ArithmeticError)
    } else if debt >= d || product < EPSILON {
        if pool.epoch == u64::MAX {
            Err(Error::ArithmeticError)
        } else {
            Ok((fresh, Some((pool.sum + reward) as i128)))
        }
    } else {
        Ok(
            (
                PoolState {
                    product: product as i128,
                    sum: (pool.sum + reward) as i128,
                    epoch: pool.epoch,
                    total_xasset: (d - debt) as i128,
                },
                None,
            ),
        )
    }
}

/// Absorbs a liquidation into the pool in constant time: `debt` of the pooled
/// synthetic asset is cancelled and `collateral` is credited to the stakers
/// through the running sum.
pub fn apply_liquidation(pool: PoolState, debt: i128, collateral: i128) -> (r: Result<
    (PoolState, Option<i128>),
    Error,
>)
    requires
        pool.wf(),
        pool.total_xasset > 0,
        0 <= debt,
        0 <= collateral,
    ensures
        r == liquidation_spec(pool, debt as int, collateral as int),
        r matches Ok((p, _)) ==> p.wf(),
{
    let d = pool.total_xasset;
    let reward = mul_div(collateral, ONE, d)?;
    proof {
        assert(reward >= 0) by (nonlinear_arith)
            requires
                reward == mul_div_spec(collateral as int, ONE as int, d as int),
                collateral >= 0, d > 0,
        {
            assert(collateral as int * ONE as int >= 0);
        }
    }
    let sum = checked_sum(pool.sum, reward)?;
    let remaining: i128 = if debt >= d { 0 } else { d - debt };
    let product = if debt >= d {
        0
    } else {
        proof {
            assert(pool.product as int * remaining as int <= pool.product as int * d as int) by (nonlinear_arith)
                requires pool.product > 0, 0 < remaining <= d;
            assert((pool.product as int * remaining as int) / d as int <= pool.product as int) by (nonlinear_arith)
                requires pool.product > 0, 0 < remaining <= d,
                    pool.product as int * remaining as int <= pool.product as int * d as int;
            assert(pool.product as int * remaining as int >= 0) by (nonlinear_arith)
                requires pool.product > 0, 0 < remaining;
            assert(0 <= (pool.product as int * remaining as int) / d as int) by (nonlinear_arith)
                requires pool.product as int * remaining as int >= 0, d > 0;
        }
        mul_div(pool.product, remaining, d)?
    };
    if debt >= d || product < EPSILON {
        if pool.epoch == u64::MAX {
            return Err(Error::ArithmeticError);
        }
        Ok((PoolState { product: ONE, sum: 0, epoch: pool.epoch + 1, total_xasset: 0 }, Some(sum)))
    } else {
        Ok((PoolState { product, sum, epoch: pool.epoch, total_xasset: remaining }, None))
    }
}

/// A liquidation that drains the pool starts a new epoch with `P = ONE`, `S = 0`
/// and nothing pooled. Every earlier position then counts for nothing, so a
/// stake right after adds exactly its amount; and a position that snapshots the
/// fresh pool with deposit `amount` has effective deposit `amount` and has
/// earned nothing, so its next claim pays only what accrues after the drain.
pub proof fn lemma_drain_resets(
    pool: PoolState,
    debt: int,
    collateral: int,
    earlier: StakePosition,
    amount: int,
    id: u64,
)
    requires
        pool.wf(),
        pool.total_xasset > 0,
        debt >= pool.total_xasset,
        collateral >= 0,
        liquidation_spec(pool, debt, collateral) is Ok,
        earlier.epoch <= pool.epoch,
        0 <= amount <= i128::MAX,
    ensures
        ({
            let (p, terminal) = liquidation_spec(pool, debt, collateral)->Ok_0;
            let fresh = StakePosition {
                id,
                xasset_deposit: amount as i128,
                product_constant: p.product,
                compounded_constant: p.sum,
                rewards_claimed: 0,
                pending_rewards: 0,
                epoch: p.epoch,
                ledger: 0,
                timestamp: 0,
            };
            &&& p == (PoolState { product: ONE, sum: 0, epoch: (pool.epoch + 1) as u64, total_xasset: 0 })
            &&& terminal is Some
            &&& effective_spec(earlier, p) == 0
            &&& effective_spec(fresh, p) == amount
            &&& gain_spec(fresh, p, 0) == 0
        }),
{
    lemma_div_by_multiple(amount, ONE as int);
    assert(amount * 0 == 0);
    assert((0int / (ONE as int)) == 0);
}

/// A liquidation never credits a staker with more than its exact share of what
/// remains: a staker whose snapshot is at the current product holds, after the
/// pool absorbs `debt` of its `D`, at most `D0 * (D - debt) / D`. Summed over
/// stakers whose deposits make up `D`, the effective deposits stay within the
/// pool's new total.
pub proof fn lemma_liquidation_never_overcredits(
    pool: PoolState,
    debt: int,
    collateral: int,
    pos: StakePosition,
)
    requires
        pool.wf(),
        pool.total_xasset > 0,
        0 <= debt < pool.total_xasset,
        collateral >= 0,
        pos.wf(),
        pos.epoch == pool.epoch,
        pos.product_constant == pool.product,
        liquidation_spec(pool, debt, collateral) is Ok,
    ensures
        effective_spec(pos, liquidation_spec(pool, debt, collateral)->Ok_0.0) * pool.total_xasset
            <= pos.xasset_deposit * (pool.total_xasset - debt),
{
    let (next, _) = liquidation_spec(pool, debt, collateral)->Ok_0;
    let d = pool.total_xasset as int;
    let p = pool.product as int;
    let d0 = pos.xasset_deposit as int;
    assert(d0 * (d - debt) >= 0) by (nonlinear_arith)
        requires d0 >= 0, d - debt > 0;
    if next.epoch == pool.epoch {
        let p2 = next.product as int;
        assert(p * (d - debt) >= 0) by (nonlinear_arith)
            requires p > 0, d - debt > 0;
        let q = mul_div_spec(p, d - debt, d);
        assert(q == (p * (d - debt)) / d);
        assert(p * (d - debt) <= p * d) by (nonlinear_arith)
            requires p > 0, d - debt <= d;
        vstd::arithmetic::div_mod::lemma_div_is_ordered(p * (d - debt), p * d, d);
        vstd::arithmetic::div_mod::lemma_div_is_ordered(0, p * (d - debt), d);
        lemma_div_by_multiple(p, d);
        assert(p * d == d * p) by (nonlinear_arith);
        assert(0 <= q <= p);
        assert(p2 == q);
        lemma_fundamental_div_mod(p * (d - debt), d);
        assert(p2 * d <= p * (d - debt));
        assert(d0 * p2 >= 0) by (nonlinear_arith)
            requires d0 >= 0, p2 > 0;
        let e = (d0 * p2) / p;
        assert(effective_spec(pos, next) == e);
        lemma_fundamental_div_mod(d0 * p2, p);
        assert(e * p <= d0 * p2);
        assert(e * d <= d0 * (d - debt)) by (nonlinear_arith)
            requires
                e * p <= d0 * p2,
                p2 * d <= p * (d - debt),
                p > 0, d > 0, d0 >= 0,
        {
            assert(e * d * p <= d0 * p2 * d);
            assert(d0 * p2 * d <= d0 * p * (d - debt));
        }
    }
}

} // verus!
