use vstd::prelude::*;
use vstd::arithmetic::div_mod::lemma_fundamental_div_mod_converse;

use crate::error::Error;
use crate::fixed::{checked_sum, fits_i128};
use crate::table::Table;

verus! {

/// What a spender may still move out of an owner's balance, until a ledger sequence.
#[derive(Clone, Copy, Debug, PartialEq, Eq, Structural)]
pub struct Allowance {
    pub amount: i128,
    pub expiration_ledger: u32,
}

/// Balances and allowances of a fungible token; accounts are numeric addresses.
pub struct Ledger {
    balances: Table<i128>,
    allowances: Table<Allowance>,
}

const WORD: u128 = 0x1_0000_0000_0000_0000;

pub open spec fn account_key(id: u64) -> u128 {
    id as u128
}

pub open spec fn pair_key(from: u64, spender: u64) -> u128 {
    (from as int * 0x1_0000_0000_0000_0000 + spender as int) as u128
}

proof fn lemma_pair_key_injective(a: u64, b: u64, c: u64, d: u64)
    ensures
        pair_key(a, b) == pair_key(c, d) ==> a == c && b == d,
{
    let m: int = 0x1_0000_0000_0000_0000;
    assert(0 <= a as int * m + b as int <= u128::MAX) by (nonlinear_arith)
        requires a <= u64::MAX, b <= u64::MAX, m == 0x1_0000_0000_0000_0000;
    assert(0 <= c as int * m + d as int <= u128::MAX) by (nonlinear_arith)
        requires c <= u64::MAX, d <= u64::MAX, m == 0x1_0000_0000_0000_0000;
    if pair_key(a, b) == pair_key(c, d) {
        let x = a as int * m + b as int;
        lemma_fundamental_div_mod_converse(x, m, a as int, b as int);
        lemma_fundamental_div_mod_converse(x, m, c as int, d as int);
    }
}

fn pair_key_of(from: u64, spender: u64) -> (r: u128)
    ensures
        r == pair_key(from, spender),
{
    assert(from as int * 0x1_0000_0000_0000_0000 + spender as int <= u128::MAX) by (nonlinear_arith)
        requires from <= u64::MAX, spender <= u64::MAX;
    (from as u128) * WORD + spender as u128
}

impl Ledger {
    pub closed spec fn wf(&self) -> bool {
        self.balances.wf() && self.allowances.wf()
    }

    /// Balance of `id`: zero for an account never credited.
    pub closed spec fn balance_of(&self, id: u64) -> i128 {
        if self.balances@.contains_key(account_key(id)) {
            self.balances@[account_key(id)]
        } else {
            0
        }
    }

    /// The allowance record from `from` to `spender`; zero when none was given.
    pub closed spec fn allowance_record(&self, from: u64, spender: u64) -> Allowance {
        if self.allowances@.contains_key(pair_key(from, spender)) {
            self.allowances@[pair_key(from, spender)]
        } else {
            Allowance { amount: 0, expiration_ledger: 0 }
        }
    }

    /// The allowance that can be spent at ledger sequence `seq`.
    pub open spec fn allowance_at(&self, from: u64, spender: u64, seq: u32) -> i128 {
        let a = self.allowance_record(from, spender);
        if a.expiration_ledger < seq { 0 } else { a.amount }
    }

    /// Balances are never negative.
    pub open spec fn balances_nonnegative(&self) -> bool {
        forall|id: u64| #[trigger] self.balance_of(id) >= 0
    }

    /// Balances equal to `old`'s except `id`, which now holds `v`.
    pub open spec fn balances_updated(&self, old: &Ledger, id: u64, v: int) -> bool {
        &&& self.balance_of(id) == v
        &&& forall|x: u64| x != id ==> #[trigger] self.balance_of(x) == old.balance_of(x)
    }

    /// `amount` moved from `from` to `to`; every other balance as in `old`.
    pub open spec fn balances_moved(&self, old: &Ledger, from: u64, to: u64, amount: int) -> bool {
        &&& self.balance_of(from) == old.balance_of(from) - amount
        &&& self.balance_of(to) == old.balance_of(to) + amount
        &&& forall|x: u64|
            x != from && x != to ==> #[trigger] self.balance_of(x) == old.balance_of(x)
    }

    /// Whether a move of `amount` from `from` to `to` is refused, and with which error.
    pub open spec fn transfer_error(&self, from: u64, to: u64, amount: int) -> Option<Error> {
        if from == to {
            Some(Error::CannotTransferToSelf)
        } else if amount < 0 {
            Some(Error::InvalidAmount)
        } else if self.balance_of(from) < amount {
            Some(Error::InsufficientBalance)
        } else if !fits_i128(self.balance_of(to) + amount) {
            Some(Error::ArithmeticError)
        } else {
            None
        }
    }

    pub open spec fn same_allowances(&self, old: &Ledger) -> bool {
        forall|f: u64, s: u64| #[trigger] self.allowance_record(f, s) == old.allowance_record(f, s)
    }

    pub fn new() -> (r: Ledger)
        ensures
            r.wf(),
            forall|id: u64| #[trigger] r.balance_of(id) == 0,
            forall|f: u64, s: u64| #[trigger] r.allowance_record(f, s).amount == 0,
    {
        Ledger { balances: Table::new(), allowances: Table::new() }
    }

    pub fn balance(&self, id: u64) -> (r: i128)
        requires
            self.wf(),
        ensures
            r == self.balance_of(id),
    {
        match self.balances.get(id as u128) {
            Some(b) => b,
            None => 0,
        }
    }

    fn put_balance(&mut self, id: u64, v: i128)
        requires
            old(self).wf(),
        ensures
            final(self).wf(),
            final(self).balances_updated(old(self), id, v as int),
            final(self).same_allowances(old(self)),
    {
        self.balances.set(id as u128, v);
    }

    pub fn allowance(&self, from: u64, spender: u64, seq: u32) -> (r: i128)
        requires
            self.wf(),
        ensures
            r == self.allowance_at(from, spender, seq),
    {
        match self.allowances.get(pair_key_of(from, spender)) {
            Some(a) => if a.expiration_ledger < seq { 0 } else { a.amount },
            None => 0,
        }
    }

    fn put_allowance(&mut self, from: u64, spender: u64, a: Allowance)
        requires
            old(self).wf(),
        ensures
            final(self).wf(),
            final(self).allowance_record(from, spender) == a,
            forall|f: u64, s: u64|
                !(f == from && s == spender) ==> #[trigger] final(self).allowance_record(f, s)
                    == old(self).allowance_record(f, s),
            forall|x: u64| #[trigger] final(self).balance_of(x) == old(self).balance_of(x),
    {
        self.allowances.set(pair_key_of(from, spender), a);
        proof {
            assert forall|f: u64, s: u64| !(f == from && s == spender) implies
                #[trigger] self.allowance_record(f, s) == old(self).allowance_record(f, s) by {
                lemma_pair_key_injective(f, s, from, spender);
            }
        }
    }

    /// Credits `amount` to `to`.
    pub fn mint(&mut self, to: u64, amount: i128) -> (r: Result<(), Error>)
        requires
            old(self).wf(),
        ensures
            final(self).wf(),
            amount < 0 ==> r == Err::<(), Error>(Error::InvalidAmount),
            amount >= 0 && !fits_i128(old(self).balance_of(to) + amount) ==> r == Err::<(), Error>(
                Error::ArithmeticError,
            ),
            r is Ok <==> amount >= 0 && fits_i128(old(self).balance_of(to) + amount),
            r is Ok ==> final(self).balances_updated(old(self), to, old(self).balance_of(to) + amount),
            r is Ok ==> final(self).same_allowances(old(self)),
            r is Err ==> *final(self) == *old(self),
    {
        if amount < 0 {
            return Err(Error::InvalidAmount);
        }
        let b = self.balance(to);
        let nb = checked_sum(b, amount)?;
        self.put_balance(to, nb);
        Ok(())
    }

    /// Debits `amount` from `from`.
    pub fn burn(&mut self, from: u64, amount: i128) -> (r: Result<(), Error>)
        requires
            old(self).wf(),
        ensures
            final(self).wf(),
            amount < 0 ==> r == Err::<(), Error>(Error::InvalidAmount),
            amount >= 0 && old(self).balance_of(from) < amount ==> r == Err::<(), Error>(
                Error::InsufficientBalance,
            ),
            r is Ok <==> amount >= 0 && old(self).balance_of(from) >= amount,
            r is Ok ==> final(self).balances_updated(old(self), from, old(self).balance_of(from) - amount),
            r is Ok ==> final(self).same_allowances(old(self)),
            r is Err ==> *final(self) == *old(self),
    {
        if amount < 0 {
            return Err(Error::InvalidAmount);
        }
        let b = self.balance(from);
        if b < amount {
            return Err(Error::InsufficientBalance);
        }
        self.put_balance(from, b - amount);
        Ok(())
    }

    /// Moves `amount` from `from` to `to`.
    pub fn transfer(&mut self, from: u64, to: u64, amount: i128) -> (r: Result<(), Error>)
        requires
            old(self).wf(),
        ensures
            final(self).wf(),
            r == (match old(self).transfer_error(from, to, amount as int) {
                Some(e) => Err::<(), Error>(e),
                None => Ok(()),
            }),
            r is Ok ==> final(self).balances_moved(old(self), from, to, amount as int),
            r is Ok ==> final(self).same_allowances(old(self)),
            r is Err ==> *final(self) == *old(self),
    {
        if from == to {
            return Err(Error::CannotTransferToSelf);
        }
        if amount < 0 {
            return Err(Error::InvalidAmount);
        }
        let fb = self.balance(from);
        if fb < amount {
            return Err(Error::InsufficientBalance);
        }
        let tb = self.balance(to);
        let nt = checked_sum(tb, amount)?;
        self.put_balance(from, fb - amount);
        self.put_balance(to, nt);
        Ok(())
    }

    /// Lets `spender` move up to `amount` of `from`'s balance until `expiration_ledger`.
    pub fn approve(&mut self, from: u64, spender: u64, amount: i128, expiration_ledger: u32) -> (r:
        Result<(), Error>)
        requires
            old(self).wf(),
        ensures
            final(self).wf(),
            r is Ok <==> amount >= 0,
            r is Err ==> r == Err::<(), Error>(Error::InvalidAmount) && *final(self) == *old(self),
            r is Ok ==> final(self).allowance_record(from, spender) == (Allowance {
                amount,
                expiration_ledger,
            }),
            r is Ok ==> forall|f: u64, s: u64|
                !(f == from && s == spender) ==> #[trigger] final(self).allowance_record(f, s)
                    == old(self).allowance_record(f, s),
            forall|x: u64| #[trigger] final(self).balance_of(x) == old(self).balance_of(x),
    {
        if amount < 0 {
            return Err(Error::InvalidAmount);
        }
        self.put_allowance(from, spender, Allowance { amount, expiration_ledger });
        Ok(())
    }

    /// Whether `spender`'s move of `amount` from `from` to `to` at ledger `seq` is
    /// refused, and with which error. The balance is checked before the allowance.
    pub open spec fn transfer_from_error(
        &self,
        spender: u64,
        from: u64,
        to: u64,
        amount: int,
        seq: u32,
    ) -> Option<Error> {
        if from == to {
            Some(Error::CannotTransferToSelf)
        } else if amount < 0 {
            Some(Error::InvalidAmount)
        } else if self.balance_of(from) < amount {
            Some(Error::InsufficientBalance)
        } else if self.allowance_at(from, spender, seq) < amount {
            Some(Error::InsufficientAllowance)
        } else if !fits_i128(self.balance_of(to) + amount) {
            Some(Error::ArithmeticError)
        } else {
            None
        }
    }

    /// `spender` moves `amount` from `from` to `to`, spending that much allowance.
    pub fn transfer_from(&mut self, spender: u64, from: u64, to: u64, amount: i128, seq: u32) -> (r:
        Result<(), Error>)
        requires
            old(self).wf(),
        ensures
            final(self).wf(),
            r == (match old(self).transfer_from_error(spender, from, to, amount as int, seq) {
                Some(e) => Err::<(), Error>(e),
                None => Ok(()),
            }),
            r is Ok ==> final(self).balances_moved(old(self), from, to, amount as int),
            r is Ok ==> final(self).allowance_record(from, spender) == (Allowance {
                amount: (old(self).allowance_at(from, spender, seq) - amount) as i128,
                expiration_ledger: old(self).allowance_record(from, spender).expiration_ledger,
            }),
            r is Ok ==> forall|f: u64, s: u64|
                !(f == from && s == spender) ==> #[trigger] final(self).allowance_record(f, s)
                    == old(self).allowance_record(f, s),
            r is Err ==> *final(self) == *old(self),
    {
        if from == to {
            return Err(Error::CannotTransferToSelf);
        }
        if amount < 0 {
            return Err(Error::InvalidAmount);
        }
        let fb = self.balance(from);
        if fb < amount {
            return Err(Error::InsufficientBalance);
        }
        let allowed = self.allowance(from, spender, seq);
        if allowed < amount {
            return Err(Error::InsufficientAllowance);
        }
        let tb = self.balance(to);
        let nt = checked_sum(tb, amount)?;
        let expiration_ledger = match self.allowances.get(pair_key_of(from, spender)) {
            Some(a) => a.expiration_ledger,
            None => 0,
        };
        self.put_allowance(from, spender, Allowance { amount: allowed - amount, expiration_ledger });
        self.put_balance(from, fb - amount);
        self.put_balance(to, nt);
        Ok(())
    }
}

} // verus!
