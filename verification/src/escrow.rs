//! The reserve in step with ownership: for every kitty that an account
//! owns, the ledger holds the reserve per kitty for it.

use crate::runtime::Host;
use crate::storage::Storage;
use crate::types::AccountId;
use crate::types::KittyIndex;
use vstd::prelude::*;
use vstd::set_lib::full_set_properties;
use vstd::set_lib::lemma_set_subset_finite;

verus! {

impl Storage {
    /// The kitties whose owner on record is `who`.
    pub open spec fn owned_by(self, who: AccountId) -> Set<KittyIndex> {
        Set::new(
            |id: KittyIndex| self.kitty_owners.contains_key(id) && self.kitty_owners[id] == who,
        )
    }
}

/// Every account has in reserve the reserve per kitty, once for each kitty
/// that it owns. This holds as long as the reserve per kitty stays what it
/// was and nobody but the registry moves the reserves.
pub open spec fn escrow_in_step(s: Storage, h: Host) -> bool {
    forall|who: AccountId| #[trigger]
        h.reserved_balance(who) == h.new_kitty_reserve * s.owned_by(who).len()
}

/// An account owns finitely many kitties.
pub proof fn lemma_owned_by_finite(s: Storage, who: AccountId)
    ensures
        s.owned_by(who).finite(),
{
    broadcast use full_set_properties;
    assert(s.owned_by(who).subset_of(Set::<KittyIndex>::full()));
    lemma_set_subset_finite(Set::<KittyIndex>::full(), s.owned_by(who));
}

/// A registry with nothing on record is in step with a ledger that holds
/// no reserves.
pub proof fn lemma_empty_escrow(h: Host)
    requires
        forall|who: AccountId| #[trigger] h.reserved_balance(who) == 0,
    ensures
        escrow_in_step(Storage::empty(), h),
{
    assert forall|who: AccountId| #[trigger]
        h.reserved_balance(who) == h.new_kitty_reserve * Storage::empty().owned_by(who).len() by {
        assert(Storage::empty().owned_by(who) =~= Set::<KittyIndex>::empty());
        assert(h.reserved_balance(who) == 0);
    }
}

/// Putting a kitty on record under the next identifier for an account from
/// which the reserve was taken keeps the reserves in step.
pub proof fn lemma_insert_kitty_keeps_escrow(
    s: Storage,
    h: Host,
    owner: AccountId,
    dna: Seq<u8>,
    parent: Option<(KittyIndex, KittyIndex)>,
)
    requires
        s.allocation_in_step(),
        s.kitties_count < KittyIndex::MAX,
        escrow_in_step(s, h),
    ensures
        escrow_in_step(
            s.insert_kitty(owner, s.kitties_count, dna, parent),
            h.reserve(owner, h.new_kitty_reserve),
        ),
{
    let id = s.kitties_count;
    let t = s.insert_kitty(owner, id, dna, parent);
    let g = h.reserve(owner, h.new_kitty_reserve);
    let amount = h.new_kitty_reserve as int;
    assert(!s.kitty_owners.contains_key(id));
    assert forall|who: AccountId| #[trigger]
        g.reserved_balance(who) == g.new_kitty_reserve * t.owned_by(who).len() by {
        assert(h.reserved_balance(who) == h.new_kitty_reserve * s.owned_by(who).len());
        lemma_owned_by_finite(s, who);
        if who == owner {
            assert(t.owned_by(who) =~= s.owned_by(who).insert(id));
            let n = s.owned_by(who).len() as int;
            assert(amount * (n + 1) == amount * n + amount) by (nonlinear_arith);
        } else {
            assert(t.owned_by(who) =~= s.owned_by(who));
        }
    }
}

/// Handing a kitty over, with the reserve taken from the receiver and
/// released to the giver, keeps the reserves in step.
pub proof fn lemma_reassign_keeps_escrow(
    s: Storage,
    h: Host,
    from: AccountId,
    to: AccountId,
    kitty_id: KittyIndex,
)
    requires
        s.transfer_refusal(from, to, kitty_id) is None,
        escrow_in_step(s, h),
    ensures
        escrow_in_step(
            s.reassign(from, to, kitty_id),
            h.reserve(to, h.new_kitty_reserve).unreserve(from, h.new_kitty_reserve),
        ),
{
    let t = s.reassign(from, to, kitty_id);
    let amount = h.new_kitty_reserve as int;
    let g = h.reserve(to, h.new_kitty_reserve).unreserve(from, h.new_kitty_reserve);
    lemma_owned_by_finite(s, from);
    lemma_owned_by_finite(s, to);
    assert(s.owned_by(from).contains(kitty_id));
    assert(h.reserved_balance(from) == h.new_kitty_reserve * s.owned_by(from).len());
    let held = s.owned_by(from).len() as int;
    assert(held >= 1);
    assert(amount * held >= amount) by (nonlinear_arith)
        requires
            held >= 1,
            amount >= 0,
    ;
    assert(amount * (held - 1) == amount * held - amount) by (nonlinear_arith);
    assert forall|who: AccountId| #[trigger]
        g.reserved_balance(who) == g.new_kitty_reserve * t.owned_by(who).len() by {
        assert(h.reserved_balance(who) == h.new_kitty_reserve * s.owned_by(who).len());
        if who == from {
            assert(t.owned_by(who) =~= s.owned_by(who).remove(kitty_id));
        } else if who == to {
            assert(t.owned_by(who) =~= s.owned_by(who).insert(kitty_id));
            let n = s.owned_by(who).len() as int;
            assert(amount * (n + 1) == amount * n + amount) by (nonlinear_arith);
        } else {
            assert(t.owned_by(who) =~= s.owned_by(who));
        }
    }
}

} // verus!
