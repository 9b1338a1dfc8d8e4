//! The plain values that the registry speaks in: identifiers, amounts,
//! the reasons for which a request is refused and the events that a
//! successful request gives.

use vstd::prelude::*;

verus! {

/// Identifies a kitty. The registry hands these out in rising order and
/// never hands out the largest value of the type.
pub type KittyIndex = u32;

/// An account, as the host has already authenticated it.
pub type AccountId = u64;

/// An amount of currency.
pub type Balance = u128;

/// Why a request was refused. A refused request changes nothing.
#[derive(Clone, Copy, Debug, PartialEq, Eq, Structural)]
pub enum Error {
    /// Every identifier has been handed out.
    KittiesCountOverflow,
    /// The kitty has no owner or no genome on record.
    KittyNotExists,
    /// The caller does not own the kitty.
    NotKittyOwner,
    /// The caller and the receiver are the same account.
    TransferToSelf,
    /// A kitty cannot be bred with itself.
    RequiredDiffrentParent,
    /// The account that must put up the reserve cannot.
    MoneyNotEnough,
    /// Less than the reserve could be released.
    UnReserveMoneyNotEnough,
    /// Kept for a marketplace; no request gives it.
    AlreadyOwned,
    /// Kept for a marketplace; no request gives it.
    NotForSale,
    /// Kept for a marketplace; no request gives it.
    PriceTooLow,
    /// Kept beside `NotKittyOwner`; no request gives it.
    RequireOwner,
}

/// What a successful request announces.
#[derive(Clone, Copy, Debug, PartialEq, Eq, Structural)]
pub enum Event {
    /// A kitty with this identifier now exists and belongs to this account.
    Created(AccountId, KittyIndex),
    /// The kitty went from the first account to the second.
    Transferred(AccountId, AccountId, KittyIndex),
}

/// The ledger's answer when it cannot set the asked amount aside.
#[derive(Clone, Copy, Debug, PartialEq, Eq, Structural)]
pub struct InsufficientFunds;

} // verus!
