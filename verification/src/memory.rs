//! A host held in memory: a ledger of balances, a seed and a place in the
//! block that the holder sets.

use crate::runtime::Host;
use crate::runtime::Trait;
use crate::types::AccountId;
use crate::types::Balance;
use crate::types::InsufficientFunds;
use std::collections::HashMap;
use vstd::prelude::*;
use vstd::std_specs::hash::*;

verus! {

broadcast use vstd::std_specs::hash::group_hash_axioms;

/// What one account holds: the part at its free disposal, and the part
/// that is set aside.
#[derive(Clone, Copy)]
struct Account {
    free: Balance,
    reserved: Balance,
}

/// How the ledger keeps an account: all that it holds, and how much of that
/// is set aside. What is set aside never counts for more than the whole.
#[derive(Clone, Copy)]
struct Entry {
    total: Balance,
    reserved: Balance,
}

impl Entry {
    spec fn account(self) -> Account {
        if self.reserved <= self.total {
            Account { free: (self.total - self.reserved) as Balance, reserved: self.reserved }
        } else {
            Account { free: 0, reserved: self.total }
        }
    }
}

/// A host whose ledger, seed and place in the block are plain values.
/// No account of its ledger holds more, free and reserved together, than
/// a `Balance` can count.
pub struct MemoryRuntime {
    accounts: HashMap<AccountId, Entry>,
    seed: [u8; 32],
    extrinsic_index: Option<u32>,
    new_kitty_reserve: Balance,
}

impl MemoryRuntime {
    /// What the ledger holds for `who`: nothing, where it has never heard of
    /// the account.
    spec fn account(&self, who: AccountId) -> Account {
        if self.accounts@.contains_key(who) {
            self.accounts@[who].account()
        } else {
            Account { free: 0, reserved: 0 }
        }
    }

    /// A host with an empty ledger.
    pub fn new(new_kitty_reserve: Balance, seed: [u8; 32], extrinsic_index: Option<u32>) -> (runtime: Self)
        ensures
            runtime@ == (Host {
                free: Map::total(|who: AccountId| 0nat),
                reserved: Map::total(|who: AccountId| 0nat),
                seed: seed@,
                extrinsic_index,
                new_kitty_reserve,
            }),
    {
        let runtime = MemoryRuntime {
            accounts: HashMap::new(),
            seed,
            extrinsic_index,
            new_kitty_reserve,
        };
        proof {
            assert(runtime@.free =~= Map::total(|who: AccountId| 0nat));
            assert(runtime@.reserved =~= Map::total(|who: AccountId| 0nat));
        }
        runtime
    }

    fn lookup(&self, who: &AccountId) -> (account: Account)
        ensures
            account == self.account(*who),
            account.free + account.reserved <= Balance::MAX,
    {
        match self.accounts.get(who) {
            Some(entry) => if entry.reserved <= entry.total {
                Account { free: entry.total - entry.reserved, reserved: entry.reserved }
            } else {
                Account { free: 0, reserved: entry.total }
            },
            None => Account { free: 0, reserved: 0 },
        }
    }

    /// Adds `amount` to the free balance of `who`. Returns `false`, and
    /// changes nothing, where the account would then hold more than a
    /// `Balance` can count.
    pub fn deposit(&mut self, who: AccountId, amount: Balance) -> (done: bool)
        ensures
            done <==> old(self)@.free_balance(who) + old(self)@.reserved_balance(who) + amount
                <= Balance::MAX,
            done ==> final(self)@ == (Host {
                free: old(self)@.free.insert(who, (old(self)@.free_balance(who) + amount) as nat),
                ..old(self)@
            }),
            !done ==> *final(self) == *old(self),
    {
        let account = self.lookup(&who);
        if amount > Balance::MAX - account.free - account.reserved {
            return false;
        }
        self.accounts.insert(
            who,
            Entry { total: account.free + account.reserved + amount, reserved: account.reserved },
        );
        proof {
            assert(self@.reserved =~= old(self)@.reserved);
            assert(self@.free =~= old(self)@.free.insert(
                who,
                (old(self)@.free_balance(who) + amount) as nat,
            ));
        }
        true
    }

    /// Sets the seed that the host offers.
    pub fn set_seed(&mut self, seed: [u8; 32])
        ensures
            final(self)@ == (Host { seed: seed@, ..old(self)@ }),
    {
        self.seed = seed;
        proof {
            assert(self@.free =~= old(self)@.free);
            assert(self@.reserved =~= old(self)@.reserved);
        }
    }

    /// Sets the place of the current request in its block.
    pub fn set_extrinsic_index(&mut self, extrinsic_index: Option<u32>)
        ensures
            final(self)@ == (Host { extrinsic_index, ..old(self)@ }),
    {
        self.extrinsic_index = extrinsic_index;
        proof {
            assert(self@.free =~= old(self)@.free);
            assert(self@.reserved =~= old(self)@.reserved);
        }
    }

    /// What `who` has at its free disposal.
    pub fn free_balance(&self, who: AccountId) -> (free: Balance)
        ensures
            free == self@.free_balance(who),
    {
        self.lookup(&who).free
    }

    /// What `who` has in reserve.
    pub fn reserved_balance(&self, who: AccountId) -> (reserved: Balance)
        ensures
            reserved == self@.reserved_balance(who),
    {
        self.lookup(&who).reserved
    }
}

impl Trait for MemoryRuntime {
    closed spec fn view(&self) -> Host {
        Host {
            free: Map::total(|who: AccountId| self.account(who).free as nat),
            reserved: Map::total(|who: AccountId| self.account(who).reserved as nat),
            seed: self.seed@,
            extrinsic_index: self.extrinsic_index,
            new_kitty_reserve: self.new_kitty_reserve,
        }
    }

    /// An amount can be set aside where the free balance holds that much.
    open spec fn can_reserve(&self, who: AccountId, value: Balance) -> bool {
        self@.free_balance(who) >= value
    }

    fn new_kitty_reserve(&self) -> (value: Balance) {
        self.new_kitty_reserve
    }

    fn random_seed(&self) -> (seed: [u8; 32]) {
        self.seed
    }

    fn extrinsic_index(&self) -> (index: Option<u32>) {
        self.extrinsic_index
    }

    fn reserve(&mut self, who: &AccountId, value: Balance) -> (result: Result<(), InsufficientFunds>) {
        let account = self.lookup(who);
        if account.free < value {
            return Err(InsufficientFunds);
        }
        self.accounts.insert(
            *who,
            Entry { total: account.free + account.reserved, reserved: account.reserved + value },
        );
        proof {
            assert(self@.free =~= old(self)@.reserve(*who, value).free);
            assert(self@.reserved =~= old(self)@.reserve(*who, value).reserved);
        }
        Ok(())
    }

    fn unreserve(&mut self, who: &AccountId, value: Balance) -> (rest: Balance) {
        let account = self.lookup(who);
        let moved = if account.reserved < value {
            account.reserved
        } else {
            value
        };
        self.accounts.insert(
            *who,
            Entry { total: account.free + account.reserved, reserved: account.reserved - moved },
        );
        proof {
            assert(self@.free =~= old(self)@.unreserve(*who, value).free);
            assert(self@.reserved =~= old(self)@.unreserve(*who, value).reserved);
        }
        value - moved
    }
}

} // verus!
