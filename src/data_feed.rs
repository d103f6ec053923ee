use vstd::prelude::*;

use crate::prices::PriceData;

verus! {

/// Failures of the price feed.
#[derive(Clone, Copy, Debug, PartialEq, Eq, Structural)]
pub enum Error {
    AssetNotFound,
    AssetAlreadyExists,
    Unauthorized,
}

/// A quoted asset: a ledger asset by address, or any other by its symbol.
#[derive(Debug, PartialEq, Eq)]
pub enum Asset {
    Stellar(u64),
    Other(String),
}

/// Two assets name the same thing.
pub open spec fn same_asset(a: Asset, b: Asset) -> bool {
    match (a, b) {
        (Asset::Stellar(x), Asset::Stellar(y)) => x == y,
        (Asset::Other(x), Asset::Other(y)) => x@ == y@,
        _ => false,
    }
}

pub fn asset_eq(a: &Asset, b: &Asset) -> (r: bool)
    ensures
        r == same_asset(*a, *b),
{
    match (a, b) {
        (Asset::Stellar(x), Asset::Stellar(y)) => *x == *y,
        (Asset::Other(x), Asset::Other(y)) => *x == *y,
        _ => false,
    }
}

/// A copy of `a` that names the same asset.
pub fn copy_asset(a: &Asset) -> (r: Asset)
    ensures
        same_asset(r, *a),
{
    match a {
        Asset::Stellar(x) => Asset::Stellar(*x),
        Asset::Other(s) => Asset::Other(s.clone()),
    }
}

/// Timestamps strictly increase along a price history.
pub open spec fn sorted(s: Seq<PriceData>) -> bool {
    forall|i: int, j: int| 0 <= i < j < s.len() ==> s[i].timestamp < s[j].timestamp
}

/// The price recorded at `ts`, if any.
pub open spec fn price_at(s: Seq<PriceData>, ts: u64) -> Option<i128> {
    if exists|i: int| 0 <= i < s.len() && s[i].timestamp == ts {
        Some(s[choose|i: int| 0 <= i < s.len() && s[i].timestamp == ts].price)
    } else {
        None
    }
}

proof fn lemma_price_at_index(s: Seq<PriceData>, i: int)
    requires
        sorted(s),
        0 <= i < s.len(),
    ensures
        price_at(s, s[i].timestamp) == Some(s[i].price),
{
    let ts = s[i].timestamp;
    let j = choose|j: int| 0 <= j < s.len() && s[j].timestamp == ts;
    assert(s[i].timestamp == ts);
    if j < i {
        assert(s[j].timestamp < s[i].timestamp);
    } else if j > i {
        assert(s[i].timestamp < s[j].timestamp);
    }
}

/// Records `p` in a sorted history, replacing a price at the same timestamp.
fn record_price(s: &mut Vec<PriceData>, p: PriceData)
    requires
        sorted(old(s)@),
    ensures
        sorted(final(s)@),
        forall|ts: u64| #[trigger] price_at(final(s)@, ts) == if ts == p.timestamp {
            Some(p.price)
        } else {
            price_at(old(s)@, ts)
        },
        (forall|k: int| 0 <= k < old(s)@.len() ==> old(s)@[k].timestamp < p.timestamp) ==> final(s)@
            == old(s)@.push(p),
        forall|k: int| 0 <= k < old(s)@.len() && old(s)@[k].timestamp == p.timestamp ==> final(s)@
            == old(s)@.update(k, p),
{
    let ghost before = s@;
    let mut i: usize = 0;
    while i < s.len() && s[i].timestamp < p.timestamp
        invariant
            s@ == before,
            i <= s@.len(),
            forall|j: int| 0 <= j < i ==> s@[j].timestamp < p.timestamp,
        decreases s@.len() - i,
    {
        i = i + 1;
    }
    if i < s.len() && s[i].timestamp == p.timestamp {
        s.set(i, p);
        proof {
            assert forall|k: int| 0 <= k < before.len() && before[k].timestamp == p.timestamp implies s@
                == before.update(k, p) by {
                if k < i {
                    assert(before[k].timestamp < before[i as int].timestamp);
                } else if k > i {
                    assert(before[i as int].timestamp < before[k].timestamp);
                }
            }
            assert forall|ts: u64| #[trigger] price_at(s@, ts) == if ts == p.timestamp {
                Some(p.price)
            } else {
                price_at(before, ts)
            } by {
                if ts == p.timestamp {
                    lemma_price_at_index(s@, i as int);
                } else {
                    if exists|k: int| 0 <= k < before.len() && before[k].timestamp == ts {
                        let k = choose|k: int| 0 <= k < before.len() && before[k].timestamp == ts;
                        lemma_price_at_index(before, k);
                        assert(s@[k] == before[k]);
                        lemma_price_at_index(s@, k);
                    }
                    if exists|k: int| 0 <= k < s@.len() && s@[k].timestamp == ts {
                        let k = choose|k: int| 0 <= k < s@.len() && s@[k].timestamp == ts;
                        assert(before[k] == s@[k]);
                    }
                }
            }
        }
    } else {
        s.insert(i, p);
        proof {
            assert forall|k: int| 0 <= k < before.len() && before[k].timestamp == p.timestamp implies s@
                == before.update(k, p) by {
                if k < i {
                } else if (i as int) < before.len() {
                    assert(before[i as int].timestamp <= before[k].timestamp);
                }
            }
            if forall|k: int| 0 <= k < before.len() ==> before[k].timestamp < p.timestamp {
                if (i as int) < before.len() {
                    assert(before[i as int].timestamp < p.timestamp);
                }
                assert(s@ =~= before.push(p));
            }
            assert forall|a: int, b: int| 0 <= a < b < s@.len() implies s@[a].timestamp
                < s@[b].timestamp by {
                if b < i {
                } else if a < i && b == i {
                } else if a < i {
                    assert(s@[b] == before[b - 1]);
                    if (i as int) < before.len() {
                        assert(before[i as int].timestamp <= before[b - 1].timestamp);
                    }
                } else if a == i {
                    assert(s@[b] == before[b - 1]);
                    assert(before[i as int].timestamp <= before[b - 1].timestamp);
                } else {
                    assert(s@[a] == before[a - 1]);
                    assert(s@[b] == before[b - 1]);
                }
            }
            assert forall|ts: u64| #[trigger] price_at(s@, ts) == if ts == p.timestamp {
                Some(p.price)
            } else {
                price_at(before, ts)
            } by {
                if ts == p.timestamp {
                    lemma_price_at_index(s@, i as int);
                } else {
                    if exists|k: int| 0 <= k < before.len() && before[k].timestamp == ts {
                        let k = choose|k: int| 0 <= k < before.len() && before[k].timestamp == ts;
                        lemma_price_at_index(before, k);
                        let k2 = if k < i { k } else { k + 1 };
                        assert(s@[k2] == before[k]);
                        lemma_price_at_index(s@, k2);
                    }
                    if exists|k: int| 0 <= k < s@.len() && s@[k].timestamp == ts {
                        let k = choose|k: int| 0 <= k < s@.len() && s@[k].timestamp == ts;
                        let k0 = if k < i { k } else { k - 1 };
                        assert(before[k0] == s@[k]);
                    }
                }
            }
        }
    }
}


/// The first place `a` is quoted at in `list`, where it is quoted.
pub open spec fn first_index(list: Seq<Asset>, a: Asset) -> int {
    choose|i: int|
        0 <= i < list.len() && same_asset(list[i], a) && forall|j: int|
            0 <= j < i ==> !same_asset(list[j], a)
}

proof fn lemma_first_from(s: Seq<Asset>, a: Asset, w: int)
    requires
        0 <= w < s.len(),
        same_asset(s[w], a),
    ensures
        exists|f: int| 0 <= f <= w && same_asset(s[f], a)
            && forall|j: int| 0 <= j < f ==> !same_asset(s[j], a),
    decreases w,
{
    if exists|j: int| 0 <= j < w && same_asset(s[j], a) {
        let j = choose|j: int| 0 <= j < w && same_asset(s[j], a);
        lemma_first_from(s, a, j);
    }
}

/// A price feed for a set of assets: for each, its history of prices by
/// timestamp. Prices are quoted in `base` with `decimals` decimals. Only `admin`
/// may add assets and record prices.
pub struct DataFeed {
    admin: u64,
    assets: Vec<Asset>,
    histories: Vec<Vec<PriceData>>,
    base: Asset,
    decimals: u32,
    resolution: u32,
}

impl DataFeed {
    pub closed spec fn wf(&self) -> bool {
        &&& self.histories@.len() == self.assets@.len()
        &&& forall|i: int| 0 <= i < self.histories@.len() ==> sorted(#[trigger] self.histories@[i]@)
    }

    pub closed spec fn admin_spec(&self) -> u64 {
        self.admin
    }

    /// The quoted assets, in the order they were added.
    pub closed spec fn asset_list(&self) -> Seq<Asset> {
        self.assets@
    }

    /// The price history of the `i`-th asset, oldest first.
    pub closed spec fn history(&self, i: int) -> Seq<PriceData> {
        self.histories@[i]@
    }

    pub closed spec fn base_spec(&self) -> Asset {
        self.base
    }

    pub closed spec fn decimals_spec(&self) -> u32 {
        self.decimals
    }

    pub closed spec fn resolution_spec(&self) -> u32 {
        self.resolution
    }

    /// Every history runs oldest first, with strictly increasing timestamps.
    pub open spec fn all_sorted(&self) -> bool {
        forall|i: int| 0 <= i < self.asset_list().len() ==> sorted(#[trigger] self.history(i))
    }

    /// A well-formed feed keeps every history sorted by timestamp.
    pub proof fn lemma_histories_sorted(&self)
        requires
            self.wf(),
        ensures
            self.all_sorted(),
    {
    }

    /// Whether `a` is among the quoted assets.
    pub open spec fn quotes(&self, a: Asset) -> bool {
        exists|i: int| 0 <= i < self.asset_list().len() && same_asset(self.asset_list()[i], a)
    }

    /// `i` is the first place `a` is quoted at.
    pub open spec fn is_first_index(&self, a: Asset, i: int) -> bool {
        &&& 0 <= i < self.asset_list().len()
        &&& same_asset(self.asset_list()[i], a)
        &&& forall|j: int| 0 <= j < i ==> !same_asset(self.asset_list()[j], a)
    }

    /// The place whose history the feed reads and writes for `a`.
    pub open spec fn position(&self, a: Asset) -> int {
        first_index(self.asset_list(), a)
    }

    pub proof fn lemma_position(&self, a: Asset, i: int)
        requires
            self.is_first_index(a, i),
        ensures
            self.position(a) == i,
    {
        let j = self.position(a);
        assert(self.is_first_index(a, j));
        if j < i {
            assert(!same_asset(self.asset_list()[j], a));
        } else if j > i {
            assert(!same_asset(self.asset_list()[i], a));
        }
    }

    /// A feed quoting `assets`, each with an empty history, administered by `admin`.
    pub fn new(admin: u64, assets: Vec<Asset>, base: Asset, decimals: u32, resolution: u32) -> (r: DataFeed)
        ensures
            r.wf(),
            r.all_sorted(),
            r.admin_spec() == admin,
            r.asset_list() == assets@,
            forall|i: int| 0 <= i < assets@.len() ==> r.history(i).len() == 0,
            r.base_spec() == base,
            r.decimals_spec() == decimals,
            r.resolution_spec() == resolution,
    {
        let mut histories: Vec<Vec<PriceData>> = Vec::new();
        let mut i: usize = 0;
        while i < assets.len()
            invariant
                i <= assets@.len(),
                histories@.len() == i,
                forall|j: int| 0 <= j < i ==> (#[trigger] histories@[j])@.len() == 0,
            decreases assets@.len() - i,
        {
            histories.push(Vec::new());
            i = i + 1;
        }
        DataFeed { admin, assets, histories, base, decimals, resolution }
    }

    fn index_of(&self, a: &Asset) -> (r: Option<usize>)
        requires
            self.wf(),
        ensures
            r matches Some(i) ==> self.is_first_index(*a, i as int) && self.position(*a) == i,
            r is Some <==> self.quotes(*a),
    {
        let mut i: usize = 0;
        while i < self.assets.len()
            invariant
                i <= self.assets@.len(),
                forall|j: int| 0 <= j < i ==> !same_asset(self.assets@[j], *a),
            decreases self.assets@.len() - i,
        {
            if asset_eq(&self.assets[i], a) {
                proof {
                    self.lemma_position(*a, i as int);
                }
                return Some(i);
            }
            i = i + 1;
        }
        None
    }

    /// Adds `assets` to the quoted ones, each with an empty history; only the
    /// admin may. Fails, and changes nothing, when one of them is quoted already
    /// or appears twice.
    pub fn add_assets(&mut self, caller: u64, assets: Vec<Asset>) -> (r: Result<(), Error>)
        requires
            old(self).wf(),
        ensures
            final(self).wf(),
            final(self).all_sorted(),
            caller != old(self).admin_spec() ==> r == Err::<(), Error>(Error::Unauthorized),
            r is Err ==> *final(self) == *old(self),
            caller == old(self).admin_spec() && r is Err ==> r == Err::<(), Error>(Error::AssetAlreadyExists),
            r is Ok <==> caller == old(self).admin_spec()
                && (forall|i: int| 0 <= i < assets@.len() ==> !old(self).quotes(#[trigger] assets@[i]))
                && (forall|i: int, j: int| 0 <= i < j < assets@.len() ==> !same_asset(assets@[i], assets@[j])),
            r is Ok ==> final(self).asset_list() == old(self).asset_list() + assets@,
            r is Ok ==> forall|i: int| 0 <= i < old(self).asset_list().len() ==> final(self).history(i) == old(self).history(i),
            r is Ok ==> forall|i: int| old(self).asset_list().len() <= i < final(self).asset_list().len()
                ==> final(self).history(i).len() == 0,
            r is Ok ==> forall|a: Asset| #[trigger] old(self).quotes(a) ==> final(self).position(a) == old(self).position(a),
            final(self).admin_spec() == old(self).admin_spec(),
            final(self).base_spec() == old(self).base_spec(),
            final(self).decimals_spec() == old(self).decimals_spec(),
            final(self).resolution_spec() == old(self).resolution_spec(),
    {
        if caller != self.admin {
            return Err(Error::Unauthorized);
        }
        let mut i: usize = 0;
        while i < assets.len()
            invariant
                self.wf(),
                *self == *old(self),
                caller == old(self).admin,
                i <= assets@.len(),
                forall|k: int| 0 <= k < i ==> !self.quotes(#[trigger] assets@[k]),
                forall|k: int, l: int| 0 <= k < l < i ==> !same_asset(assets@[k], assets@[l]),
            decreases assets@.len() - i,
        {
            if self.index_of(&assets[i]).is_some() {
                return Err(Error::AssetAlreadyExists);
            }
            let mut j: usize = 0;
            while j < i
                invariant
                    self.wf(),
                    *self == *old(self),
                    caller == old(self).admin,
                    j <= i,
                    i < assets@.len(),
                    forall|l: int| 0 <= l < j ==> !same_asset(assets@[l], assets@[i as int]),
                decreases i - j,
            {
                if asset_eq(&assets[j], &assets[i]) {
                    return Err(Error::AssetAlreadyExists);
                }
                j = j + 1;
            }
            i = i + 1;
        }
        let ghost before = *self;
        let count = assets.len();
        let mut k: usize = 0;
        while k < count
            invariant
                k <= count,
                self.assets@ == before.assets@,
                self.admin == before.admin && self.base == before.base && self.decimals == before.decimals
                    && self.resolution == before.resolution,
                self.histories@.len() == before.histories@.len() + k,
                forall|i: int| 0 <= i < before.histories@.len() ==> self.histories@[i] == before.histories@[i],
                forall|i: int| before.histories@.len() <= i < self.histories@.len() ==> (#[trigger] self.histories@[i])@.len() == 0,
            decreases count - k,
        {
            self.histories.push(Vec::new());
            k = k + 1;
        }
        let mut added = assets;
        self.assets.append(&mut added);
        proof {
            assert forall|i: int| 0 <= i < self.histories@.len() implies sorted(#[trigger] self.histories@[i]@) by {
                if i < before.histories@.len() {
                    assert(self.histories@[i] == before.histories@[i]);
                }
            }
            assert forall|a: Asset| #[trigger] before.quotes(a) implies self.position(a) == before.position(a) by {
                let w = choose|w: int| 0 <= w < before.asset_list().len() && same_asset(before.asset_list()[w], a);
                lemma_first_from(before.asset_list(), a, w);
                let f = choose|f: int| 0 <= f <= w && same_asset(before.asset_list()[f], a)
                    && forall|j: int| 0 <= j < f ==> !same_asset(before.asset_list()[j], a);
                before.lemma_position(a, f);
                assert(self.asset_list() == before.asset_list() + assets@);
                assert(self.is_first_index(a, f));
                self.lemma_position(a, f);
            }
        }
        Ok(())
    }

    /// Records `price` for `asset` at `timestamp`, replacing a price recorded at
    /// the same timestamp; only the admin may. A timestamp newer than every
    /// recorded one appends to the asset's history.
    pub fn set_asset_price(&mut self, caller: u64, asset: &Asset, price: i128, timestamp: u64) -> (r: Result<(), Error>)
        requires
            old(self).wf(),
        ensures
            final(self).wf(),
            final(self).all_sorted(),
            r == (if caller != old(self).admin_spec() {
                Err::<(), Error>(Error::Unauthorized)
            } else if !old(self).quotes(*asset) {
                Err(Error::AssetNotFound)
            } else {
                Ok(())
            }),
            r is Err ==> *final(self) == *old(self),
            final(self).asset_list() == old(self).asset_list(),
            final(self).admin_spec() == old(self).admin_spec(),
            r is Ok ==> ({
                let i = old(self).position(*asset);
                &&& old(self).is_first_index(*asset, i)
                &&& forall|ts: u64| #[trigger] price_at(final(self).history(i), ts) == if ts == timestamp {
                    Some(price)
                } else {
                    price_at(old(self).history(i), ts)
                }
                &&& (forall|k: int| 0 <= k < old(self).history(i).len() ==> old(self).history(i)[k].timestamp < timestamp)
                    ==> final(self).history(i) == old(self).history(i).push(PriceData { price, timestamp })
                &&& forall|k: int| 0 <= k < old(self).history(i).len() && old(self).history(i)[k].timestamp == timestamp
                    ==> final(self).history(i) == old(self).history(i).update(k, PriceData { price, timestamp })
                &&& forall|j: int| 0 <= j < old(self).asset_list().len() && j != i ==> final(self).history(j) == old(self).history(j)
            }),
    {
        if caller != self.admin {
            return Err(Error::Unauthorized);
        }
        let i = match self.index_of(asset) {
            Some(i) => i,
            None => { return Err(Error::AssetNotFound); },
        };
        let ghost before = *self;
        let mut series = Vec::new();
        std::mem::swap(&mut series, &mut self.histories[i]);
        assert(series@ == before.histories@[i as int]@);
        assert(sorted(before.histories@[i as int]@));
        record_price(&mut series, PriceData { price, timestamp });
        self.histories.set(i, series);
        proof {
            assert forall|j: int| 0 <= j < self.histories@.len() implies sorted(#[trigger] self.histories@[j]@) by {
                if j != i {
                    assert(self.histories@[j] == before.histories@[j]);
                }
            }
            assert(forall|j: int| 0 <= j < before.asset_list().len() && j != i ==> self.history(j) == before.history(j));
        }
        Ok(())
    }

    /// The newest price of `asset`, or `None` when none was recorded.
    pub fn lastprice(&self, asset: &Asset) -> (r: Result<Option<PriceData>, Error>)
        requires
            self.wf(),
        ensures
            r is Err <==> !self.quotes(*asset),
            r is Err ==> r == Err::<Option<PriceData>, Error>(Error::AssetNotFound),
            r matches Ok(o) ==> ({
                let h = self.history(self.position(*asset));
                &&& self.is_first_index(*asset, self.position(*asset))
                &&& o == (if h.len() == 0 { None } else { Some(h.last()) })
                &&& (o matches Some(p) ==> price_at(h, p.timestamp) == Some(p.price)
                    && forall|k: int| 0 <= k < h.len() ==> h[k].timestamp <= p.timestamp)
            }),
    {
        let i = match self.index_of(asset) {
            Some(i) => i,
            None => { return Err(Error::AssetNotFound); },
        };
        let series = &self.histories[i];
        proof {
            assert(sorted(self.histories@[i as int]@));
            assert(self.history(i as int) == series@);
        }
        if series.len() == 0 {
            Ok(None)
        } else {
            proof {
                lemma_price_at_index(series@, series@.len() - 1);
            }
            Ok(Some(series[series.len() - 1]))
        }
    }

    /// The price of `asset` recorded at exactly `timestamp`, if any.
    pub fn price(&self, asset: &Asset, timestamp: u64) -> (r: Result<Option<PriceData>, Error>)
        requires
            self.wf(),
        ensures
            r is Err <==> !self.quotes(*asset),
            r is Err ==> r == Err::<Option<PriceData>, Error>(Error::AssetNotFound),
            r matches Ok(o) ==> o == (match price_at(self.history(self.position(*asset)), timestamp) {
                Some(p) => Some(PriceData { price: p, timestamp }),
                None => None,
            }),
    {
        let i = match self.index_of(asset) {
            Some(i) => i,
            None => { return Err(Error::AssetNotFound); },
        };
        let series = &self.histories[i];
        proof {
            assert(sorted(self.histories@[i as int]@));
            assert(self.history(i as int) == series@);
        }
        let mut k: usize = 0;
        while k < series.len()
            invariant
                k <= series@.len(),
                sorted(series@),
                self.quotes(*asset),
                self.position(*asset) == i,
                self.history(i as int) == series@,
                forall|j: int| 0 <= j < k ==> series@[j].timestamp != timestamp,
            decreases series@.len() - k,
        {
            if series[k].timestamp == timestamp {
                proof {
                    lemma_price_at_index(series@, k as int);
                }
                return Ok(Some(PriceData { price: series[k].price, timestamp }));
            }
            k = k + 1;
        }
        Ok(None)
    }

    /// Up to `records` prices of `asset`, newest first.
    pub fn prices(&self, asset: &Asset, records: u32) -> (r: Result<Option<Vec<PriceData>>, Error>)
        requires
            self.wf(),
        ensures
            r is Err <==> !self.quotes(*asset),
            r is Err ==> r == Err::<Option<Vec<PriceData>>, Error>(Error::AssetNotFound),
            r matches Ok(o) ==> o is Some,
            r matches Ok(Some(v)) ==> ({
                let h = self.history(self.position(*asset));
                v@ == h.reverse().take(if records as int <= h.len() { records as int } else { h.len() as int })
            }),
    {
        let i = match self.index_of(asset) {
            Some(i) => i,
            None => { return Err(Error::AssetNotFound); },
        };
        let series = &self.histories[i];
        proof {
            assert(self.history(i as int) == series@);
        }
        let n: usize = if (records as usize) < series.len() { records as usize } else { series.len() };
        let mut out: Vec<PriceData> = Vec::new();
        let mut k: usize = 0;
        while k < n
            invariant
                k <= n,
                n <= series@.len(),
                out@ == series@.reverse().take(k as int),
            decreases n - k,
        {
            out.push(series[series.len() - 1 - k]);
            k = k + 1;
            assert(out@ =~= series@.reverse().take(k as int));
        }
        Ok(Some(out))
    }

    /// The quoted assets.
    pub fn assets(&self) -> (r: Vec<Asset>)
        ensures
            r@.len() == self.asset_list().len(),
            forall|i: int| 0 <= i < r@.len() ==> same_asset(#[trigger] r@[i], self.asset_list()[i]),
    {
        let mut out: Vec<Asset> = Vec::new();
        let mut k: usize = 0;
        while k < self.assets.len()
            invariant
                k <= self.assets@.len(),
                out@.len() == k,
                forall|i: int| 0 <= i < k ==> same_asset(#[trigger] out@[i], self.assets@[i]),
            decreases self.assets@.len() - k,
        {
            out.push(copy_asset(&self.assets[k]));
            k = k + 1;
        }
        out
    }

    /// The asset prices are quoted in.
    pub fn base(&self) -> (r: Asset)
        ensures
            same_asset(r, self.base_spec()),
    {
        copy_asset(&self.base)
    }

    pub fn decimals(&self) -> (r: u32)
        ensures
            r == self.decimals_spec(),
    {
        self.decimals
    }

    /// The feed's tick period in milliseconds.
    pub fn resolution(&self) -> (r: u32)
        ensures
            r == self.resolution_spec(),
    {
        self.resolution
    }
}

} // verus!
