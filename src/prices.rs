use vstd::prelude::*;

use crate::error::Error;

verus! {

/// A price at the oracle's scale, with the time it was recorded.
#[derive(Clone, Copy, Debug, PartialEq, Eq, Structural)]
pub struct PriceData {
    pub price: i128,
    pub timestamp: u64,
}

/// The two last prices the protocol reads: collateral and pegged asset.
#[derive(Clone, Copy, Debug, PartialEq, Eq, Structural)]
pub struct Prices {
    pub xlm: Option<PriceData>,
    pub pegged: Option<PriceData>,
}

/// The host's ledger clock: close time in seconds and sequence number.
#[derive(Clone, Copy, Debug, PartialEq, Eq, Structural)]
pub struct LedgerInfo {
    pub timestamp: u64,
    pub sequence: u32,
}

/// Both prices, when both were recorded and are positive.
pub open spec fn price_pair_spec(p: Prices) -> Result<(i128, i128), Error> {
    match (p.xlm, p.pegged) {
        (Some(x), Some(g)) => if x.price > 0 && g.price > 0 {
            Ok((x.price, g.price))
        } else {
            Err(Error::PriceUnavailable)
        },
        _ => Err(Error::PriceUnavailable),
    }
}

/// The collateral price and the pegged price as a matched pair.
pub fn price_pair(p: Prices) -> (r: Result<(i128, i128), Error>)
    ensures
        r == price_pair_spec(p),
{
    match (p.xlm, p.pegged) {
        (Some(x), Some(g)) => if x.price > 0 && g.price > 0 {
            Ok((x.price, g.price))
        } else {
            Err(Error::PriceUnavailable)
        },
        _ => Err(Error::PriceUnavailable),
    }
}

} // verus!
