use vstd::prelude::*;

verus! {

/// The single error kind that a failed protocol operation reports.
#[derive(Clone, Copy, Debug, PartialEq, Eq, Structural)]
pub enum Error {
    AdminNotSet,
    Unauthorized,
    CDPAlreadyExists,
    CDPNotFound,
    CDPNotOpen,
    CDPNotInsolvent,
    CDPNotFrozen,
    InsufficientCollateral,
    InsufficientBalance,
    InsufficientStake,
    InsufficientAllowance,
    CannotTransferToSelf,
    InvalidAmount,
    AssetAlreadyDeployed,
    NoSuchAsset,
    PriceUnavailable,
    ArithmeticError,
    AssetUpgradeFailed,
}

} // verus!
