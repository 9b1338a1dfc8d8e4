//! What the registry asks of the host that it runs in.

use crate::types::AccountId;
use crate::types::Balance;
use crate::types::InsufficientFunds;
use vstd::prelude::*;

verus! {

/// What the registry can tell of its host: the funds of every account,
/// the seed on offer, the place of the current request in its block, and
/// the amount reserved for each kitty.
pub struct Host {
    /// What each account has at its free disposal.
    pub free: Map<AccountId, nat>,
    /// What each account has in reserve.
    pub reserved: Map<AccountId, nat>,
    /// The seed that the host offers at present.
    pub seed: Seq<u8>,
    /// The place of the current request in its block, if it has one.
    pub extrinsic_index: Option<u32>,
    /// The amount that is reserved for each kitty.
    pub new_kitty_reserve: Balance,
}

impl Host {
    /// What `who` has at its free disposal: nothing, where the ledger does
    /// not know the account.
    pub open spec fn free_balance(self, who: AccountId) -> nat {
        if self.free.contains_key(who) {
            self.free[who]
        } else {
            0
        }
    }

    /// What `who` has in reserve: nothing, where the ledger does not know
    /// the account.
    pub open spec fn reserved_balance(self, who: AccountId) -> nat {
        if self.reserved.contains_key(who) {
            self.reserved[who]
        } else {
            0
        }
    }

    /// The host after `value` went from the free balance of `who` into its
    /// reserve.
    pub open spec fn reserve(self, who: AccountId, value: Balance) -> Host {
        Host {
            free: self.free.insert(who, (self.free_balance(who) - value) as nat),
            reserved: self.reserved.insert(who, (self.reserved_balance(who) + value) as nat),
            ..self
        }
    }

    /// How much of `value` can be released for `who`: all of it, or the
    /// whole reserve where that is less.
    pub open spec fn released(self, who: AccountId, value: Balance) -> nat {
        if self.reserved_balance(who) < value {
            self.reserved_balance(who)
        } else {
            value as nat
        }
    }

    /// The host after as much of `value` as there was in the reserve of
    /// `who` went back to its free balance.
    pub open spec fn unreserve(self, who: AccountId, value: Balance) -> Host {
        Host {
            free: self.free.insert(who, self.free_balance(who) + self.released(who, value)),
            reserved: self.reserved.insert(
                who,
                (self.reserved_balance(who) - self.released(who, value)) as nat,
            ),
            ..self
        }
    }
}

/// The host of a registry: the source of its randomness, the ledger in
/// which reserves are held, and the amount reserved for each kitty.
///
/// The registry never looks at balances. It asks the ledger to set an
/// amount aside, hears whether that was done, and asks it to release one.
pub trait Trait: Sized {
    /// The host as the registry sees it. The two maps of funds have every
    /// account as a key.
    spec fn view(&self) -> Host;

    /// Whether the ledger would now set `value` aside for `who`. It never
    /// does so where the free balance is short of `value`; it may have
    /// reasons of its own not to where the balance would do.
    spec fn can_reserve(&self, who: AccountId, value: Balance) -> bool;

    /// The amount to reserve from an owner for each kitty.
    fn new_kitty_reserve(&self) -> (value: Balance)
        ensures
            value == self@.new_kitty_reserve,
    ;

    /// The host's current seed.
    fn random_seed(&self) -> (seed: [u8; 32])
        ensures
            seed@ == self@.seed,
    ;

    /// The place of the current request in its block.
    fn extrinsic_index(&self) -> (index: Option<u32>)
        ensures
            index == self@.extrinsic_index,
    ;

    /// Moves `value` from the free balance of `who` into reserve, or does
    /// nothing at all and says so.
    fn reserve(&mut self, who: &AccountId, value: Balance) -> (result: Result<(), InsufficientFunds>)
        ensures
            result is Ok <==> old(self).can_reserve(*who, value),
            result is Ok ==> old(self)@.free_balance(*who) >= value,
            result is Ok ==> final(self)@ == old(self)@.reserve(*who, value),
            result is Err ==> *final(self) == *old(self),
    ;

    /// Moves up to `value` from the reserve of `who` back to the free balance:
    /// all of it where the reserve holds that much, else the whole reserve.
    /// Returns what could not be moved.
    fn unreserve(&mut self, who: &AccountId, value: Balance) -> (rest: Balance)
        ensures
            rest == value - old(self)@.released(*who, value),
            final(self)@ == old(self)@.unreserve(*who, value),
    ;
}

} // verus!
