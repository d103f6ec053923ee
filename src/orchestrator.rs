use vstd::prelude::*;

use crate::cdp::CDP;
use crate::contract::TokenContract;
use crate::pool::{PoolState, StakePosition};
use crate::error::Error;

verus! {

/// Registry of deployed synthetic-asset instances, by asset symbol, with the
/// addresses handed to every new instance.
pub struct OrchestratorContract {
    pub admin: u64,
    pub xlm_sac: u64,
    pub xlm_contract: u64,
    pub wasm_hash: Vec<u8>,
    pub assets: Vec<(String, u64)>,
}

/// The address registered under `symbol` in `entries`, the first one if several.
pub open spec fn registered(entries: Seq<(String, u64)>, symbol: Seq<char>) -> Option<u64>
    decreases entries.len(),
{
    if entries.len() == 0 {
        None
    } else if entries[0].0@ == symbol {
        Some(entries[0].1)
    } else {
        registered(entries.drop_first(), symbol)
    }
}

proof fn lemma_registered_push(entries: Seq<(String, u64)>, e: (String, u64), symbol: Seq<char>)
    requires
        registered(entries, e.0@) is None,
    ensures
        registered(entries.push(e), symbol) == if symbol == e.0@ {
            Some(e.1)
        } else {
            registered(entries, symbol)
        },
    decreases entries.len(),
{
    if entries.len() == 0 {
        assert(entries.push(e).drop_first() =~= Seq::<(String, u64)>::empty());
        assert(entries.push(e)[0] == e);
        assert(registered(Seq::<(String, u64)>::empty(), symbol) is None);
        assert(registered(entries, symbol) is None);
    } else {
        assert(entries.push(e)[0] == entries[0]);
        assert(entries[0].0@ != e.0@);
        assert(entries.push(e).drop_first() =~= entries.drop_first().push(e));
        lemma_registered_push(entries.drop_first(), e, symbol);
        if entries[0].0@ == symbol {
            assert(registered(entries, symbol) == Some(entries[0].1));
        } else {
            assert(registered(entries, symbol) == registered(entries.drop_first(), symbol));
        }
    }
}

proof fn lemma_registered_update(entries: Seq<(String, u64)>, i: int, v: u64, symbol: Seq<char>)
    requires
        0 <= i < entries.len(),
        registered(entries, entries[i].0@) == Some(entries[i].1),
        forall|j: int| 0 <= j < i ==> entries[j].0@ != entries[i].0@,
    ensures
        registered(entries.update(i, (entries[i].0, v)), symbol) == if symbol == entries[i].0@ {
            Some(v)
        } else {
            registered(entries, symbol)
        },
    decreases entries.len(),
{
    if i > 0 {
        assert(entries.update(i, (entries[i].0, v)).drop_first() =~= entries.drop_first().update(
            i - 1,
            (entries[i].0, v),
        ));
        lemma_registered_update(entries.drop_first(), i - 1, v, symbol);
    } else {
        assert(entries.update(i, (entries[i].0, v)).drop_first() =~= entries.drop_first());
    }
}

impl OrchestratorContract {
    /// The address registered for `symbol`.
    pub open spec fn asset_of(&self, symbol: Seq<char>) -> Option<u64> {
        registered(self.assets@, symbol)
    }

    pub fn new(admin: u64, xlm_sac: u64, xlm_contract: u64, wasm_hash: Vec<u8>) -> (r: Self)
        ensures
            r.admin == admin,
            r.xlm_sac == xlm_sac,
            r.xlm_contract == xlm_contract,
            r.wasm_hash@ == wasm_hash@,
            forall|s: Seq<char>| #[trigger] r.asset_of(s) is None,
    {
        OrchestratorContract { admin, xlm_sac, xlm_contract, wasm_hash, assets: Vec::new() }
    }

    fn find(&self, symbol: &String) -> (r: Option<usize>)
        ensures
            r matches Some(i) ==> i < self.assets@.len() && self.assets@[i as int].0@ == symbol@
                && self.asset_of(symbol@) == Some(self.assets@[i as int].1)
                && forall|j: int| 0 <= j < i ==> self.assets@[j].0@ != symbol@,
            r is None ==> self.asset_of(symbol@) is None,
    {
        let mut i: usize = 0;
        assert(self.assets@.skip(0) =~= self.assets@);
        while i < self.assets.len()
            invariant
                i <= self.assets@.len(),
                forall|j: int| 0 <= j < i ==> self.assets@[j].0@ != symbol@,
                registered(self.assets@, symbol@) == registered(self.assets@.skip(i as int), symbol@),
            decreases self.assets@.len() - i,
        {
            assert(self.assets@.skip(i as int)[0] == self.assets@[i as int]);
            if self.assets[i].0 == *symbol {
                return Some(i);
            }
            assert(self.assets@.skip(i as int).drop_first() =~= self.assets@.skip(i + 1));
            i = i + 1;
        }
        None
    }

    /// The instance registered for `asset_symbol`.
    pub fn get_asset_contract(&self, asset_symbol: &String) -> (r: Result<u64, Error>)
        ensures
            r == (match self.asset_of(asset_symbol@) {
                Some(a) => Ok::<u64, Error>(a),
                None => Err(Error::NoSuchAsset),
            }),
    {
        match self.find(asset_symbol) {
            Some(i) => Ok(self.assets[i].1),
            None => Err(Error::NoSuchAsset),
        }
    }

    /// Registers `asset_contract` for a symbol that has none yet; only the admin may.
    pub fn set_asset_contract(&mut self, caller: u64, asset_symbol: String, asset_contract: u64) -> (r: Result<(), Error>)
        ensures
            caller != old(self).admin ==> r == Err::<(), Error>(Error::Unauthorized),
            caller == old(self).admin && old(self).asset_of(asset_symbol@) is Some ==> r == Err::<(), Error>(
                Error::AssetAlreadyDeployed,
            ),
            r is Ok <==> caller == old(self).admin && old(self).asset_of(asset_symbol@) is None,
            r is Err ==> *final(self) == *old(self),
            r is Ok ==> forall|s: Seq<char>| #[trigger] final(self).asset_of(s) == if s == asset_symbol@ {
                Some(asset_contract)
            } else {
                old(self).asset_of(s)
            },
            final(self).admin == old(self).admin,
            final(self).xlm_sac == old(self).xlm_sac,
            final(self).xlm_contract == old(self).xlm_contract,
            final(self).wasm_hash@ == old(self).wasm_hash@,
    {
        if caller != self.admin {
            return Err(Error::Unauthorized);
        }
        if self.find(&asset_symbol).is_some() {
            return Err(Error::AssetAlreadyDeployed);
        }
        let ghost before = self.assets@;
        let ghost key = asset_symbol@;
        self.assets.push((asset_symbol, asset_contract));
        proof {
            assert forall|s: Seq<char>| #[trigger] self.asset_of(s) == if s == key {
                Some(asset_contract)
            } else {
                registered(before, s)
            } by {
                lemma_registered_push(before, self.assets@.last(), s);
                assert(before.push(self.assets@.last()) == self.assets@);
            }
        }
        Ok(())
    }

    /// Points `asset_symbol` at `asset_contract`, registered or not; only the admin may.
    pub fn set_existing_asset_contract(&mut self, caller: u64, asset_symbol: String, asset_contract: u64) -> (r: Result<(), Error>)
        ensures
            r is Ok <==> caller == old(self).admin,
            r is Err ==> r == Err::<(), Error>(Error::Unauthorized) && *final(self) == *old(self),
            r is Ok ==> forall|s: Seq<char>| #[trigger] final(self).asset_of(s) == if s == asset_symbol@ {
                Some(asset_contract)
            } else {
                old(self).asset_of(s)
            },
            final(self).admin == old(self).admin,
            final(self).xlm_sac == old(self).xlm_sac,
            final(self).xlm_contract == old(self).xlm_contract,
            final(self).wasm_hash@ == old(self).wasm_hash@,
    {
        if caller != self.admin {
            return Err(Error::Unauthorized);
        }
        match self.find(&asset_symbol) {
            Some(i) => {
                let ghost before = self.assets@;
                let name = self.assets[i].0.clone();
                self.assets.set(i, (name, asset_contract));
                proof {
                    assert(self.assets@ =~= before.update(i as int, (before[i as int].0, asset_contract))) by {
                        assert(self.assets@[i as int].0@ == before[i as int].0@);
                    }
                    assert forall|s: Seq<char>| #[trigger] self.asset_of(s) == if s == asset_symbol@ {
                        Some(asset_contract)
                    } else {
                        registered(before, s)
                    } by {
                        lemma_registered_update(before, i as int, asset_contract, s);
                    }
                }
            },
            None => {
                let ghost before = self.assets@;
                let ghost key = asset_symbol@;
                self.assets.push((asset_symbol, asset_contract));
                proof {
                    assert forall|s: Seq<char>| #[trigger] self.asset_of(s) == if s == key {
                        Some(asset_contract)
                    } else {
                        registered(before, s)
                    } by {
                        lemma_registered_push(before, self.assets@.last(), s);
                        assert(before.push(self.assets@.last()) == self.assets@);
                    }
                }
            },
        }
        Ok(())
    }

    /// Records the instance the host deployed at `deployed` for `symbol` and
    /// builds its initial state: owned by this registry's admin, with the
    /// registry's collateral ledger and collateral oracle and the parameters
    /// given. Only the admin may, and only for a symbol with no instance yet.
    pub fn deploy_asset_contract(
        &mut self,
        caller: u64,
        deployed: u64,
        asset_contract: u64,
        pegged_asset: String,
        min_collat_ratio: u32,
        name: String,
        symbol: String,
        decimals: u32,
        annual_interest_rate: u32,
    ) -> (r: Result<TokenContract, Error>)
        ensures
            caller != old(self).admin ==> r == Err::<TokenContract, Error>(Error::Unauthorized),
            caller == old(self).admin && old(self).asset_of(symbol@) is Some ==> r == Err::<TokenContract, Error>(
                Error::AssetAlreadyDeployed,
            ),
            r is Ok <==> caller == old(self).admin && old(self).asset_of(symbol@) is None,
            r is Err ==> *final(self) == *old(self),
            r is Ok ==> forall|s: Seq<char>| #[trigger] final(self).asset_of(s) == if s == symbol@ {
                Some(deployed)
            } else {
                old(self).asset_of(s)
            },
            r matches Ok(t) ==> ({
                &&& t.wf()
                &&& t.address == deployed
                &&& t.admin == old(self).admin
                &&& t.xlm_sac == old(self).xlm_sac
                &&& t.xlm_contract == old(self).xlm_contract
                &&& t.asset_contract == asset_contract
                &&& t.pegged_asset == pegged_asset
                &&& t.min_collat_ratio == min_collat_ratio
                &&& t.name == name
                &&& t.symbol@ == symbol@
                &&& t.decimals == decimals
                &&& t.annual_interest_rate == annual_interest_rate
                &&& t.cdps@ == Map::<u128, CDP>::empty()
                &&& t.stakers@ == Map::<u128, StakePosition>::empty()
                &&& t.pool == PoolState::new_spec()
                &&& t.liquidations@.len() == 0
                &&& forall|id: u64| #[trigger] t.token.balance_of(id) == 0
            }),
            final(self).admin == old(self).admin,
            final(self).xlm_sac == old(self).xlm_sac,
            final(self).xlm_contract == old(self).xlm_contract,
            final(self).wasm_hash@ == old(self).wasm_hash@,
    {
        if caller != self.admin {
            return Err(Error::Unauthorized);
        }
        let key = symbol.clone();
        self.set_asset_contract(caller, key, deployed)?;
        Ok(TokenContract::new(
            deployed,
            self.admin,
            self.xlm_sac,
            self.xlm_contract,
            asset_contract,
            pegged_asset,
            min_collat_ratio,
            name,
            symbol,
            decimals,
            annual_interest_rate,
        ))
    }

    /// The instance to bring to the current code hash for `asset_symbol`; only the admin may ask.
    pub fn upgrade_existing_asset_contract(&self, caller: u64, asset_symbol: &String) -> (r: Result<u64, Error>)
        ensures
            caller != self.admin ==> r == Err::<u64, Error>(Error::Unauthorized),
            caller == self.admin ==> r == (match self.asset_of(asset_symbol@) {
                Some(a) => Ok::<u64, Error>(a),
                None => Err(Error::NoSuchAsset),
            }),
    {
        if caller != self.admin {
            return Err(Error::Unauthorized);
        }
        self.get_asset_contract(asset_symbol)
    }

    /// Replaces the code hash used for new and upgraded instances; only the
    /// admin may. Returns the new hash.
    pub fn update_xasset_wasm_hash(&mut self, caller: u64, wasm_hash: Vec<u8>) -> (r: Result<Vec<u8>, Error>)
        ensures
            r is Ok <==> caller == old(self).admin,
            r is Err ==> r == Err::<Vec<u8>, Error>(Error::Unauthorized) && *final(self) == *old(self),
            r matches Ok(h) ==> h@ == wasm_hash@ && final(self).wasm_hash@ == wasm_hash@,
            forall|s: Seq<char>| #[trigger] final(self).asset_of(s) == old(self).asset_of(s),
            final(self).admin == old(self).admin,
            final(self).xlm_sac == old(self).xlm_sac,
            final(self).xlm_contract == old(self).xlm_contract,
    {
        if caller != self.admin {
            return Err(Error::Unauthorized);
        }
        let copy = copy_bytes(&wasm_hash);
        self.wasm_hash = wasm_hash;
        Ok(copy)
    }
}

fn copy_bytes(v: &Vec<u8>) -> (r: Vec<u8>)
    ensures
        r@ == v@,
{
    let mut out: Vec<u8> = Vec::new();
    let mut i: usize = 0;
    while i < v.len()
        invariant
            i <= v@.len(),
            out@ == v@.take(i as int),
        decreases v@.len() - i,
    {
        out.push(v[i]);
        i = i + 1;
        assert(out@ =~= v@.take(i as int));
    }
    assert(v@.take(v@.len() as int) =~= v@);
    out
}

/// Holds the admin right over synthetic-asset instances and changes their
/// parameters on its admin's word.
pub struct GovernanceContract {
    pub address: u64,
    pub admin: u64,
}

impl GovernanceContract {
    /// Sets `target`'s minimum collateralization ratio to `new_value`, when
    /// `caller` is this contract's admin; the instance accepts it only from its
    /// own admin, which must be this contract.
    pub fn execute_change(&self, caller: u64, target: &mut TokenContract, new_value: u32) -> (r: Result<u32, Error>)
        requires
            old(target).wf(),
        ensures
            final(target).wf(),
            r is Ok <==> caller == self.admin && old(target).admin == self.address,
            r is Err ==> r == Err::<u32, Error>(Error::Unauthorized) && *final(target) == *old(target),
            r is Ok ==> r == Ok::<u32, Error>(new_value)
                && *final(target) == (TokenContract { min_collat_ratio: new_value, ..*old(target) }),
    {
        if caller != self.admin {
            return Err(Error::Unauthorized);
        }
        target.set_min_collat_ratio(self.address, new_value)
    }
}

} // verus!
