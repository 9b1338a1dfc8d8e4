//! The registry as a mathematical value, and what each request does to it.

use crate::types::AccountId;
use crate::types::Error;
use crate::types::KittyIndex;
use vstd::prelude::*;

verus! {

/// Everything the registry has on record.
pub struct Storage {
    /// The genome of each kitty.
    pub kitties: Map<KittyIndex, Seq<u8>>,
    /// The identifier that the next kitty gets.
    pub kitties_count: KittyIndex,
    /// The owner of each kitty.
    pub kitty_owners: Map<KittyIndex, AccountId>,
    /// The pairs `(owner, kitty)`: the same ownership, read from the owner.
    pub owned_kitties: Set<(AccountId, KittyIndex)>,
    /// The two parents of each kitty that was bred.
    pub kitty_parents: Map<KittyIndex, (KittyIndex, KittyIndex)>,
    /// The pairs `(parent, child)`.
    pub kitty_children: Set<(KittyIndex, KittyIndex)>,
    /// The pairs `(kitty, partner)` of kitties that have bred together.
    pub kitty_partners: Set<(KittyIndex, KittyIndex)>,
}

impl Storage {
    /// A registry with nothing on record.
    pub open spec fn empty() -> Storage {
        Storage {
            kitties: Map::empty(),
            kitties_count: 0,
            kitty_owners: Map::empty(),
            owned_kitties: Set::empty(),
            kitty_parents: Map::empty(),
            kitty_children: Set::empty(),
            kitty_partners: Set::empty(),
        }
    }

    /// The next identifier, or the refusal where none is left: the largest
    /// value of the type is never handed out.
    pub open spec fn next_kitty_id(self) -> Result<KittyIndex, Error> {
        if self.kitties_count == KittyIndex::MAX {
            Err(Error::KittiesCountOverflow)
        } else {
            Ok(self.kitties_count)
        }
    }

    /// The registry after `owner` was put on record as the owner of
    /// `kitty_id`, in both records of ownership.
    pub open spec fn assign(self, kitty_id: KittyIndex, owner: AccountId) -> Storage {
        Storage {
            kitty_owners: self.kitty_owners.insert(kitty_id, owner),
            owned_kitties: self.owned_kitties.insert((owner, kitty_id)),
            ..self
        }
    }

    /// The registry after `child` was put on record as bred from
    /// `parent_id1` and `parent_id2`: its parents, the child under each of
    /// them, and each of them as the other's partner.
    pub open spec fn record_breeding(
        self,
        child: KittyIndex,
        parent_id1: KittyIndex,
        parent_id2: KittyIndex,
    ) -> Storage {
        Storage {
            kitty_parents: self.kitty_parents.insert(child, (parent_id1, parent_id2)),
            kitty_children: self.kitty_children.insert((parent_id1, child)).insert(
                (parent_id2, child),
            ),
            kitty_partners: self.kitty_partners.insert((parent_id1, parent_id2)).insert(
                (parent_id2, parent_id1),
            ),
            ..self
        }
    }

    /// The registry after a kitty was put on record under `kitty_id` for
    /// `owner`, with its parents where it has any. The next identifier is
    /// then the one after `kitty_id`.
    pub open spec fn insert_kitty(
        self,
        owner: AccountId,
        kitty_id: KittyIndex,
        dna: Seq<u8>,
        parent: Option<(KittyIndex, KittyIndex)>,
    ) -> Storage {
        let stored = Storage {
            kitties: self.kitties.insert(kitty_id, dna),
            kitties_count: (kitty_id + 1) as KittyIndex,
            ..self
        }.assign(kitty_id, owner);
        match parent {
            Some((parent_id1, parent_id2)) => stored.record_breeding(
                kitty_id,
                parent_id1,
                parent_id2,
            ),
            None => stored,
        }
    }

    /// The registry after `kitty_id` went from `from` to `to`.
    pub open spec fn reassign(self, from: AccountId, to: AccountId, kitty_id: KittyIndex) -> Storage {
        Storage {
            kitty_owners: self.kitty_owners.insert(kitty_id, to),
            owned_kitties: self.owned_kitties.remove((from, kitty_id)).insert((to, kitty_id)),
            ..self
        }
    }

    /// Why the registry refuses, before any money is asked for, to let
    /// `sender` give `kitty_id` to `to`; `None` where it does not refuse.
    pub open spec fn transfer_refusal(
        self,
        sender: AccountId,
        to: AccountId,
        kitty_id: KittyIndex,
    ) -> Option<Error> {
        if !self.kitty_owners.contains_key(kitty_id) {
            Some(Error::KittyNotExists)
        } else if self.kitty_owners[kitty_id] != sender {
            Some(Error::NotKittyOwner)
        } else if to == sender {
            Some(Error::TransferToSelf)
        } else {
            None
        }
    }

    /// Why the registry refuses, before any money is asked for, to let
    /// `owner` breed `kitty_id1` with `kitty_id2`; `None` where it does not
    /// refuse. The first of these that applies decides: the two are the same
    /// kitty; one of them has no owner; one of them belongs to another
    /// account; one of them has no genome; no identifier is left.
    pub open spec fn breed_refusal(
        self,
        owner: AccountId,
        kitty_id1: KittyIndex,
        kitty_id2: KittyIndex,
    ) -> Option<Error> {
        if kitty_id1 == kitty_id2 {
            Some(Error::RequiredDiffrentParent)
        } else if !self.kitty_owners.contains_key(kitty_id1) || !self.kitty_owners.contains_key(
            kitty_id2,
        ) {
            Some(Error::KittyNotExists)
        } else if self.kitty_owners[kitty_id1] != owner || self.kitty_owners[kitty_id2] != owner {
            Some(Error::NotKittyOwner)
        } else if !self.kitties.contains_key(kitty_id1) || !self.kitties.contains_key(kitty_id2) {
            Some(Error::KittyNotExists)
        } else if self.kitties_count == KittyIndex::MAX {
            Some(Error::KittiesCountOverflow)
        } else {
            None
        }
    }

    /// The identifiers below the next one, and no others, have a genome and
    /// an owner.
    pub open spec fn allocation_in_step(self) -> bool {
        &&& forall|id: KittyIndex| #[trigger]
            self.kitties.contains_key(id) <==> id < self.kitties_count
        &&& forall|id: KittyIndex| #[trigger]
            self.kitty_owners.contains_key(id) <==> id < self.kitties_count
    }

    /// The two records of ownership say the same: `(owner, kitty)` is on
    /// record exactly where `owner` is the owner on record of `kitty`.
    pub open spec fn ownership_in_step(self) -> bool {
        forall|owner: AccountId, id: KittyIndex| #[trigger]
            self.owned_kitties.contains((owner, id)) <==> self.kitty_owners.contains_key(id)
                && self.kitty_owners[id] == owner
    }

    /// Whether `kitty_id` is on record as a child of `parent`'s making.
    pub open spec fn has_parent(self, kitty_id: KittyIndex, parent: KittyIndex) -> bool {
        self.kitty_parents.contains_key(kitty_id) && (self.kitty_parents[kitty_id].0 == parent
            || self.kitty_parents[kitty_id].1 == parent)
    }

    /// Whether `kitty_id` is on record as bred from `a` and `b`, in either order.
    pub open spec fn bred_from(self, kitty_id: KittyIndex, a: KittyIndex, b: KittyIndex) -> bool {
        self.kitty_parents.contains_key(kitty_id) && (self.kitty_parents[kitty_id] == (a, b)
            || self.kitty_parents[kitty_id] == (b, a))
    }

    /// The three records of descent say the same. A kitty with parents was
    /// given an identifier, and its parents are two different kitties older
    /// than it; `(parent, child)` is on record exactly where `parent` is one
    /// of the two parents of `child`; and `(a, b)` is on record as partners
    /// exactly where some kitty was bred from `a` and `b`.
    pub open spec fn lineage_in_step(self) -> bool {
        &&& forall|id: KittyIndex| #[trigger]
            self.kitty_parents.contains_key(id) ==> {
                &&& id < self.kitties_count
                &&& self.kitty_parents[id].0 < id
                &&& self.kitty_parents[id].1 < id
                &&& self.kitty_parents[id].0 != self.kitty_parents[id].1
            }
        &&& forall|parent: KittyIndex, child: KittyIndex| #[trigger]
            self.kitty_children.contains((parent, child)) <==> self.has_parent(child, parent)
        &&& forall|a: KittyIndex, b: KittyIndex| #[trigger]
            self.kitty_partners.contains((a, b)) <==> exists|child: KittyIndex| #[trigger]
                self.bred_from(child, a, b)
    }

    /// The registry is in order: its records agree with one another.
    pub open spec fn wf(self) -> bool {
        &&& self.allocation_in_step()
        &&& self.ownership_in_step()
        &&& self.lineage_in_step()
    }

    /// Whether a kitty put on record under `kitty_id` with these parents
    /// keeps a registry in order: the identifier is the next one and not the
    /// last of the type, and the parents, if any, are two different kitties
    /// on record.
    pub open spec fn admits(self, kitty_id: KittyIndex, parent: Option<(KittyIndex, KittyIndex)>) -> bool {
        &&& kitty_id == self.kitties_count
        &&& kitty_id < KittyIndex::MAX
        &&& match parent {
            Some((parent_id1, parent_id2)) => parent_id1 != parent_id2 && parent_id1 < kitty_id
                && parent_id2 < kitty_id,
            None => true,
        }
    }
}

/// A registry with nothing on record is in order.
pub proof fn lemma_empty_wf()
    ensures
        Storage::empty().wf(),
{
    let s = Storage::empty();
    assert forall|a: KittyIndex, b: KittyIndex| #[trigger]
        s.kitty_partners.contains((a, b)) <==> exists|child: KittyIndex| #[trigger]
            s.bred_from(child, a, b) by {
        if exists|child: KittyIndex| #[trigger] s.bred_from(child, a, b) {
            let child = choose|child: KittyIndex| #[trigger] s.bred_from(child, a, b);
            assert(s.kitty_parents.contains_key(child));
        }
    }
}

/// Putting a kitty on record under the next identifier keeps the registry in
/// order.
pub proof fn lemma_insert_kitty_wf(
    s: Storage,
    owner: AccountId,
    kitty_id: KittyIndex,
    dna: Seq<u8>,
    parent: Option<(KittyIndex, KittyIndex)>,
)
    requires
        s.wf(),
        s.admits(kitty_id, parent),
    ensures
        s.insert_kitty(owner, kitty_id, dna, parent).wf(),
{
    let t = s.insert_kitty(owner, kitty_id, dna, parent);
    assert(t.allocation_in_step());
    assert(t.ownership_in_step()) by {
        assert forall|who: AccountId, id: KittyIndex| #[trigger]
            t.owned_kitties.contains((who, id)) <==> t.kitty_owners.contains_key(id)
                && t.kitty_owners[id] == who by {
            assert(s.owned_kitties.contains((who, id)) <==> s.kitty_owners.contains_key(id)
                && s.kitty_owners[id] == who);
        }
    }
    assert(t.lineage_in_step()) by {
        assert forall|p: KittyIndex, c: KittyIndex| #[trigger]
            t.kitty_children.contains((p, c)) <==> t.has_parent(c, p) by {
            assert(s.kitty_children.contains((p, c)) <==> s.has_parent(c, p));
        }
        assert forall|a: KittyIndex, b: KittyIndex| #[trigger]
            t.kitty_partners.contains((a, b)) <==> exists|child: KittyIndex| #[trigger]
                t.bred_from(child, a, b) by {
            assert(s.kitty_partners.contains((a, b)) <==> exists|child: KittyIndex| #[trigger]
                s.bred_from(child, a, b));
            if t.kitty_partners.contains((a, b)) {
                if s.kitty_partners.contains((a, b)) {
                    let child = choose|child: KittyIndex| #[trigger] s.bred_from(child, a, b);
                    assert(t.bred_from(child, a, b));
                } else {
                    assert(t.bred_from(kitty_id, a, b));
                }
            }
            if exists|child: KittyIndex| #[trigger] t.bred_from(child, a, b) {
                let child = choose|child: KittyIndex| #[trigger] t.bred_from(child, a, b);
                if child != kitty_id {
                    assert(s.bred_from(child, a, b));
                }
            }
        }
    }
}

/// Handing a kitty from its owner to another account keeps the registry in
/// order.
pub proof fn lemma_reassign_wf(s: Storage, from: AccountId, to: AccountId, kitty_id: KittyIndex)
    requires
        s.wf(),
        s.kitty_owners.contains_key(kitty_id),
        s.kitty_owners[kitty_id] == from,
    ensures
        s.reassign(from, to, kitty_id).wf(),
{
    let t = s.reassign(from, to, kitty_id);
    assert(t.allocation_in_step());
    assert(t.ownership_in_step()) by {
        assert forall|who: AccountId, id: KittyIndex| #[trigger]
            t.owned_kitties.contains((who, id)) <==> t.kitty_owners.contains_key(id)
                && t.kitty_owners[id] == who by {
            assert(s.owned_kitties.contains((who, id)) <==> s.kitty_owners.contains_key(id)
                && s.kitty_owners[id] == who);
        }
    }
    assert(t.lineage_in_step()) by {
        assert forall|p: KittyIndex, c: KittyIndex| #[trigger]
            t.kitty_children.contains((p, c)) <==> t.has_parent(c, p) by {
            assert(s.kitty_children.contains((p, c)) <==> s.has_parent(c, p));
        }
        assert forall|a: KittyIndex, b: KittyIndex| #[trigger]
            t.kitty_partners.contains((a, b)) <==> exists|child: KittyIndex| #[trigger]
                t.bred_from(child, a, b) by {
            assert(s.kitty_partners.contains((a, b)) <==> exists|child: KittyIndex| #[trigger]
                s.bred_from(child, a, b));
            if exists|child: KittyIndex| #[trigger] s.bred_from(child, a, b) {
                let child = choose|child: KittyIndex| #[trigger] s.bred_from(child, a, b);
                assert(t.bred_from(child, a, b));
            }
            if exists|child: KittyIndex| #[trigger] t.bred_from(child, a, b) {
                let child = choose|child: KittyIndex| #[trigger] t.bred_from(child, a, b);
                assert(s.bred_from(child, a, b));
            }
        }
    }
}

} // verus!
