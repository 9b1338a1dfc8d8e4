//! The registry itself: its records, and the three requests that change them.

use crate::dna::combine;
use crate::dna::combine_spec;
use crate::dna::Kitty;
use crate::escrow::escrow_in_step;
use crate::escrow::lemma_insert_kitty_keeps_escrow;
use crate::escrow::lemma_reassign_keeps_escrow;
use crate::random::draw;
use crate::random::random_digest;
use crate::relation::Relation;
use crate::runtime::Trait;
use crate::storage::lemma_empty_wf;
use crate::storage::lemma_insert_kitty_wf;
use crate::storage::lemma_reassign_wf;
use crate::storage::Storage;
use crate::types::AccountId;
use crate::types::Balance;
use crate::types::Error;
use crate::types::Event;
use crate::types::KittyIndex;
use std::collections::HashMap;
use vstd::prelude::*;
use vstd::std_specs::hash::*;

verus! {

broadcast use vstd::std_specs::hash::group_hash_axioms;

/// A registry of kitties inside its host.
pub struct Module<T: Trait> {
    kitties: HashMap<KittyIndex, Kitty>,
    kitties_count: KittyIndex,
    kitty_owners: HashMap<KittyIndex, AccountId>,
    owned_kitties: Relation<AccountId, KittyIndex>,
    kitty_parents: HashMap<KittyIndex, (KittyIndex, KittyIndex)>,
    kitty_children: Relation<KittyIndex, KittyIndex>,
    kitty_partners: Relation<KittyIndex, KittyIndex>,
    runtime: T,
}

impl<T: Trait> View for Module<T> {
    type V = Storage;

    closed spec fn view(&self) -> Storage {
        Storage {
            kitties: self.kitties@.map_values(|kitty: Kitty| kitty@),
            kitties_count: self.kitties_count,
            kitty_owners: self.kitty_owners@,
            owned_kitties: self.owned_kitties@,
            kitty_parents: self.kitty_parents@,
            kitty_children: self.kitty_children@,
            kitty_partners: self.kitty_partners@,
        }
    }
}

impl<T: Trait> Module<T> {
    /// The host that the registry runs in: its randomness, its ledger and
    /// the reserve per kitty.
    pub closed spec fn host(&self) -> T {
        self.runtime
    }

    /// The digest that a request of `sender` draws from the host as it stands.
    pub open spec fn random_spec(&self, sender: AccountId) -> Seq<u8> {
        random_digest(self.host()@.seed, sender, self.host()@.extrinsic_index)
    }

    /// Whether the host's ledger would now set the reserve for one kitty
    /// aside for `who`.
    pub open spec fn can_reserve(&self, who: AccountId) -> bool {
        self.host().can_reserve(who, self.host()@.new_kitty_reserve)
    }

    /// The amount that the host reserves for each kitty.
    pub open spec fn reserve_spec(&self) -> Balance {
        self.host()@.new_kitty_reserve
    }

    /// A registry with nothing on record, inside `runtime`.
    pub fn new(runtime: T) -> (module: Self)
        ensures
            module@ == Storage::empty(),
            module@.wf(),
            module.host() == runtime,
    {
        let module = Module {
            kitties: HashMap::new(),
            kitties_count: 0,
            kitty_owners: HashMap::new(),
            owned_kitties: Relation::new(),
            kitty_parents: HashMap::new(),
            kitty_children: Relation::new(),
            kitty_partners: Relation::new(),
            runtime,
        };
        proof {
            assert(module@.kitties =~= Storage::empty().kitties);
            lemma_empty_wf();
        }
        module
    }

    /// The host, to read.
    pub fn runtime(&self) -> (runtime: &T)
        ensures
            *runtime == self.host(),
    {
        &self.runtime
    }

    /// The host, to change: the records of the registry stay as they are.
    pub fn runtime_mut(&mut self) -> (runtime: &mut T)
        ensures
            *runtime == old(self).host(),
            final(self).host() == *final(runtime),
            final(self)@ == old(self)@,
    {
        &mut self.runtime
    }

    /// The genome on record for `kitty_id`.
    pub fn kitties(&self, kitty_id: KittyIndex) -> (kitty: Option<Kitty>)
        ensures
            match kitty {
                Some(kitty) => self@.kitties.contains_key(kitty_id) && self@.kitties[kitty_id]
                    == kitty@,
                None => !self@.kitties.contains_key(kitty_id),
            },
    {
        match self.kitties.get(&kitty_id) {
            Some(kitty) => Some(*kitty),
            None => None,
        }
    }

    /// The identifier that the next kitty gets.
    pub fn kitties_count(&self) -> (count: KittyIndex)
        ensures
            count == self@.kitties_count,
    {
        self.kitties_count
    }

    /// The owner on record of `kitty_id`.
    pub fn kitty_owners(&self, kitty_id: KittyIndex) -> (owner: Option<AccountId>)
        ensures
            match owner {
                Some(owner) => self@.kitty_owners.contains_key(kitty_id)
                    && self@.kitty_owners[kitty_id] == owner,
                None => !self@.kitty_owners.contains_key(kitty_id),
            },
    {
        match self.kitty_owners.get(&kitty_id) {
            Some(owner) => Some(*owner),
            None => None,
        }
    }

    /// `kitty_id` itself where `owner` has it on record as owned, else nothing.
    pub fn owned_kitties(&self, owner: AccountId, kitty_id: KittyIndex) -> (found: Option<KittyIndex>)
        ensures
            found == if self@.owned_kitties.contains((owner, kitty_id)) {
                Some(kitty_id)
            } else {
                None
            },
    {
        if self.owned_kitties.contains(&owner, &kitty_id) {
            Some(kitty_id)
        } else {
            None
        }
    }

    /// The two parents on record of `kitty_id`.
    pub fn kitty_parents(&self, kitty_id: KittyIndex) -> (parents: Option<(KittyIndex, KittyIndex)>)
        ensures
            match parents {
                Some(pair) => self@.kitty_parents.contains_key(kitty_id)
                    && self@.kitty_parents[kitty_id] == pair,
                None => !self@.kitty_parents.contains_key(kitty_id),
            },
    {
        match self.kitty_parents.get(&kitty_id) {
            Some(pair) => Some(*pair),
            None => None,
        }
    }

    /// `child` itself where it is on record as a child of `parent`, else nothing.
    pub fn kitty_children(&self, parent: KittyIndex, child: KittyIndex) -> (found: Option<KittyIndex>)
        ensures
            found == if self@.kitty_children.contains((parent, child)) {
                Some(child)
            } else {
                None
            },
    {
        if self.kitty_children.contains(&parent, &child) {
            Some(child)
        } else {
            None
        }
    }

    /// `partner` itself where it is on record as a partner of `kitty_id`,
    /// else nothing.
    pub fn kitty_partners(&self, kitty_id: KittyIndex, partner: KittyIndex) -> (found: Option<KittyIndex>)
        ensures
            found == if self@.kitty_partners.contains((kitty_id, partner)) {
                Some(partner)
            } else {
                None
            },
    {
        if self.kitty_partners.contains(&kitty_id, &partner) {
            Some(partner)
        } else {
            None
        }
    }

    /// The kitties that `owner` has on record as owned, in rising order. In
    /// a registry that is in order these are the kitties whose owner on
    /// record is `owner`.
    pub fn owned_by(&self, owner: AccountId) -> (ids: Vec<KittyIndex>)
        ensures
            forall|id: KittyIndex|
                ids@.contains(id) <==> id < self@.kitties_count && self@.owned_kitties.contains(
                    (owner, id),
                ),
            forall|i: int, j: int| 0 <= i < j < ids@.len() ==> ids@[i] < ids@[j],
            self@.wf() ==> forall|id: KittyIndex|
                ids@.contains(id) <==> self@.kitty_owners.contains_key(id)
                    && self@.kitty_owners[id] == owner,
    {
        let ids = self.owned_kitties.row_below(&owner, self.kitties_count);
        proof {
            if self@.wf() {
                assert forall|id: KittyIndex|
                    ids@.contains(id) <==> self@.kitty_owners.contains_key(id)
                        && self@.kitty_owners[id] == owner by {
                    assert(self@.owned_kitties.contains((owner, id))
                        <==> self@.kitty_owners.contains_key(id) && self@.kitty_owners[id]
                        == owner);
                }
            }
        }
        ids
    }

    /// The kitties on record as children of `parent`, in rising order. In a
    /// registry that is in order these are the kitties that have `parent` as
    /// one of their two parents.
    pub fn children_of(&self, parent: KittyIndex) -> (ids: Vec<KittyIndex>)
        ensures
            forall|id: KittyIndex|
                ids@.contains(id) <==> id < self@.kitties_count && self@.kitty_children.contains(
                    (parent, id),
                ),
            forall|i: int, j: int| 0 <= i < j < ids@.len() ==> ids@[i] < ids@[j],
            self@.wf() ==> forall|id: KittyIndex|
                ids@.contains(id) <==> self@.has_parent(id, parent),
    {
        let ids = self.kitty_children.row_below(&parent, self.kitties_count);
        proof {
            if self@.wf() {
                assert forall|id: KittyIndex|
                    ids@.contains(id) <==> self@.has_parent(id, parent) by {
                    assert(self@.kitty_children.contains((parent, id)) <==> self@.has_parent(
                        id,
                        parent,
                    ));
                }
            }
        }
        ids
    }

    /// The kitties on record as partners of `kitty_id`, in rising order. In
    /// a registry that is in order these are the kitties with which
    /// `kitty_id` has bred.
    pub fn partners_of(&self, kitty_id: KittyIndex) -> (ids: Vec<KittyIndex>)
        ensures
            forall|id: KittyIndex|
                ids@.contains(id) <==> id < self@.kitties_count && self@.kitty_partners.contains(
                    (kitty_id, id),
                ),
            forall|i: int, j: int| 0 <= i < j < ids@.len() ==> ids@[i] < ids@[j],
            self@.wf() ==> forall|id: KittyIndex|
                ids@.contains(id) <==> self@.kitty_partners.contains((kitty_id, id)),
    {
        let ids = self.kitty_partners.row_below(&kitty_id, self.kitties_count);
        proof {
            if self@.wf() {
                assert forall|id: KittyIndex|
                    ids@.contains(id) <==> self@.kitty_partners.contains((kitty_id, id)) by {
                    if self@.kitty_partners.contains((kitty_id, id)) {
                        let child = choose|child: KittyIndex| #[trigger]
                            self@.bred_from(child, kitty_id, id);
                        assert(self@.kitty_parents.contains_key(child));
                    }
                }
            }
        }
        ids
    }

    /// The identifier for a new kitty. The largest value of the type is
    /// never handed out: once the count has reached it, the registry is full.
    pub fn next_kitty_id(&self) -> (result: Result<KittyIndex, Error>)
        ensures
            result == self@.next_kitty_id(),
    {
        let kitty_id = self.kitties_count;
        if kitty_id == KittyIndex::MAX {
            return Err(Error::KittiesCountOverflow);
        }
        Ok(kitty_id)
    }

    /// Sixteen bytes drawn for `sender` from the host's seed and the place
    /// of the current request in its block. The same host, sender and place
    /// give the same bytes.
    pub fn random_value(&self, sender: &AccountId) -> (digest: [u8; 16])
        ensures
            digest@ == self.random_spec(*sender),
    {
        let seed = self.runtime.random_seed();
        let index = self.runtime.extrinsic_index();
        draw(&seed, *sender, index)
    }

    /// Puts `owner` on record as the owner of `kitty_id`, in both records of
    /// ownership.
    fn assign(&mut self, kitty_id: KittyIndex, owner: &AccountId)
        ensures
            final(self)@ == old(self)@.assign(kitty_id, *owner),
            final(self).host() == old(self).host(),
    {
        self.kitty_owners.insert(kitty_id, *owner);
        self.owned_kitties.insert(*owner, kitty_id);
    }

    /// Hands `kitty_id` from `from` to `to`, in both records of ownership.
    fn reassign(&mut self, kitty_id: KittyIndex, from: &AccountId, to: &AccountId)
        ensures
            final(self)@ == old(self)@.reassign(*from, *to, kitty_id),
            final(self).host() == old(self).host(),
    {
        self.kitty_owners.insert(kitty_id, *to);
        self.owned_kitties.remove(from, &kitty_id);
        self.owned_kitties.insert(*to, kitty_id);
    }

    /// Puts `child` on record as bred from `parent_id1` and `parent_id2`.
    fn record_breeding(&mut self, child: KittyIndex, parent_id1: KittyIndex, parent_id2: KittyIndex)
        ensures
            final(self)@ == old(self)@.record_breeding(child, parent_id1, parent_id2),
            final(self).host() == old(self).host(),
    {
        self.kitty_parents.insert(child, (parent_id1, parent_id2));
        self.kitty_children.insert(parent_id1, child);
        self.kitty_children.insert(parent_id2, child);
        self.kitty_partners.insert(parent_id1, parent_id2);
        self.kitty_partners.insert(parent_id2, parent_id1);
    }

    /// Puts a kitty on record under `kitty_id` for `owner`, with its parents
    /// where it has any, and makes the identifier after `kitty_id` the next
    /// one. It does not look at what is on record under `kitty_id` already;
    /// in a registry that is in order, a kitty under the next identifier
    /// with parents on record leaves it in order.
    pub fn insert_kitty(
        &mut self,
        owner: &AccountId,
        kitty_id: KittyIndex,
        kitty: Kitty,
        parent: Option<(KittyIndex, KittyIndex)>,
    )
        requires
            kitty_id < KittyIndex::MAX,
        ensures
            final(self)@ == old(self)@.insert_kitty(*owner, kitty_id, kitty@, parent),
            final(self).host() == old(self).host(),
            old(self)@.wf() && old(self)@.admits(kitty_id, parent) ==> final(self)@.wf(),
    {
        self.kitties.insert(kitty_id, kitty);
        self.kitties_count = kitty_id + 1;
        proof {
            assert(self@.kitties =~= old(self)@.kitties.insert(kitty_id, kitty@));
        }
        self.assign(kitty_id, owner);
        match parent {
            Some((parent_id1, parent_id2)) => {
                self.record_breeding(kitty_id, parent_id1, parent_id2);
            },
            _ => (),
        }
        proof {
            if old(self)@.wf() && old(self)@.admits(kitty_id, parent) {
                lemma_insert_kitty_wf(old(self)@, *owner, kitty_id, kitty@, parent);
            }
        }
    }

    /// Makes a kitty for `sender` out of nothing. Its genome is drawn from
    /// the host; the reserve for it is taken from `sender`.
    ///
    /// Refused with `KittiesCountOverflow` where no identifier is left, else
    /// with `MoneyNotEnough` where the ledger will not set the reserve
    /// aside; a refusal changes nothing.
    pub fn create(&mut self, sender: AccountId) -> (result: Result<Event, Error>)
        ensures
            match result {
                Ok(event) => {
                    let kitty_id = old(self)@.kitties_count;
                    &&& kitty_id < KittyIndex::MAX
                    &&& old(self).can_reserve(sender)
                    &&& event == Event::Created(sender, kitty_id)
                    &&& final(self)@ == old(self)@.insert_kitty(
                        sender,
                        kitty_id,
                        old(self).random_spec(sender),
                        None,
                    )
                    &&& final(self).host()@ == old(self).host()@.reserve(
                        sender,
                        old(self).reserve_spec(),
                    )
                },
                Err(error) => {
                    &&& *final(self) == *old(self)
                    &&& if old(self)@.kitties_count == KittyIndex::MAX {
                        error == Error::KittiesCountOverflow
                    } else {
                        error == Error::MoneyNotEnough && !old(self).can_reserve(sender)
                    }
                },
            },
            old(self)@.wf() ==> final(self)@.wf(),
            old(self)@.wf() && escrow_in_step(old(self)@, old(self).host()@) ==> escrow_in_step(
                final(self)@,
                final(self).host()@,
            ),
    {
        let kitty_id = match self.next_kitty_id() {
            Ok(kitty_id) => kitty_id,
            Err(error) => {
                return Err(error);
            },
        };
        let dna = self.random_value(&sender);
        let kitty = Kitty(dna);

        let amount = self.runtime.new_kitty_reserve();
        match self.runtime.reserve(&sender, amount) {
            Ok(()) => {},
            Err(_) => {
                return Err(Error::MoneyNotEnough);
            },
        }

        proof {
            if old(self)@.wf() {
                assert(self@.admits(kitty_id, None));
                if escrow_in_step(old(self)@, old(self).host()@) {
                    lemma_insert_kitty_keeps_escrow(
                        old(self)@,
                        old(self).host()@,
                        sender,
                        kitty@,
                        None,
                    );
                }
            }
        }
        self.insert_kitty(&sender, kitty_id, kitty, None);
        Ok(Event::Created(sender, kitty_id))
    }

    /// Hands `kitty_id` from `sender` to `to`. The reserve for it is taken
    /// from `to` first; only then is the reserve of `sender` released and
    /// the kitty handed over.
    ///
    /// Refused with `KittyNotExists` where the kitty has no owner, else with
    /// `NotKittyOwner` where its owner is not `sender`, else with
    /// `TransferToSelf` where `to` is `sender`, else with `MoneyNotEnough`
    /// where the ledger will not set the reserve aside for `to`; a refusal
    /// changes nothing.
    pub fn transfer(&mut self, sender: AccountId, to: AccountId, kitty_id: KittyIndex) -> (result: Result<
        Event,
        Error,
    >)
        ensures
            match result {
                Ok(event) => {
                    let amount = old(self).reserve_spec();
                    &&& old(self)@.transfer_refusal(sender, to, kitty_id) is None
                    &&& old(self).can_reserve(to)
                    &&& event == Event::Transferred(sender, to, kitty_id)
                    &&& final(self)@ == old(self)@.reassign(sender, to, kitty_id)
                    &&& final(self).host()@ == old(self).host()@.reserve(to, amount).unreserve(
                        sender,
                        amount,
                    )
                },
                Err(error) => {
                    &&& *final(self) == *old(self)
                    &&& match old(self)@.transfer_refusal(sender, to, kitty_id) {
                        Some(refusal) => error == refusal,
                        None => error == Error::MoneyNotEnough && !old(self).can_reserve(to),
                    }
                },
            },
            old(self)@.wf() ==> final(self)@.wf(),
            old(self)@.wf() && escrow_in_step(old(self)@, old(self).host()@) ==> escrow_in_step(
                final(self)@,
                final(self).host()@,
            ),
    {
        let owner = match self.kitty_owners(kitty_id) {
            Some(owner) => owner,
            None => {
                return Err(Error::KittyNotExists);
            },
        };
        if owner != sender {
            return Err(Error::NotKittyOwner);
        }
        if to == sender {
            return Err(Error::TransferToSelf);
        }
        let amount = self.runtime.new_kitty_reserve();
        match self.runtime.reserve(&to, amount) {
            Ok(()) => {},
            Err(_) => {
                return Err(Error::MoneyNotEnough);
            },
        }
        let release = self.runtime.new_kitty_reserve();
        self.runtime.unreserve(&sender, release);
        self.reassign(kitty_id, &sender, &to);

        proof {
            if old(self)@.wf() {
                lemma_reassign_wf(old(self)@, sender, to, kitty_id);
                if escrow_in_step(old(self)@, old(self).host()@) {
                    lemma_reassign_keeps_escrow(
                        old(self)@,
                        old(self).host()@,
                        sender,
                        to,
                        kitty_id,
                    );
                }
            }
        }
        Ok(Event::Transferred(sender, to, kitty_id))
    }

    /// Breeds a kitty for `sender` from two of its own; see `do_breed`.
    pub fn breed(&mut self, sender: AccountId, kitty_id1: KittyIndex, kitty_id2: KittyIndex) -> (result:
        Result<Event, Error>)
        ensures
            match result {
                Ok(event) => {
                    let new_kitty_id = old(self)@.kitties_count;
                    &&& old(self)@.breed_refusal(sender, kitty_id1, kitty_id2) is None
                    &&& old(self).can_reserve(sender)
                    &&& event == Event::Created(sender, new_kitty_id)
                    &&& final(self)@ == old(self)@.insert_kitty(
                        sender,
                        new_kitty_id,
                        combine_spec(
                            old(self)@.kitties[kitty_id1],
                            old(self)@.kitties[kitty_id2],
                            old(self).random_spec(sender),
                        ),
                        Some((kitty_id1, kitty_id2)),
                    )
                    &&& final(self).host()@ == old(self).host()@.reserve(
                        sender,
                        old(self).reserve_spec(),
                    )
                },
                Err(error) => {
                    &&& *final(self) == *old(self)
                    &&& match old(self)@.breed_refusal(sender, kitty_id1, kitty_id2) {
                        Some(refusal) => error == refusal,
                        None => error == Error::MoneyNotEnough && !old(self).can_reserve(sender),
                    }
                },
            },
            old(self)@.wf() ==> final(self)@.wf(),
            old(self)@.wf() && escrow_in_step(old(self)@, old(self).host()@) ==> escrow_in_step(
                final(self)@,
                final(self).host()@,
            ),
    {
        match self.do_breed(&sender, kitty_id1, kitty_id2) {
            Ok(new_kitty_id) => Ok(Event::Created(sender, new_kitty_id)),
            Err(error) => Err(error),
        }
    }

    /// Breeds a kitty for `owner` from `kitty_id1` and `kitty_id2` and
    /// returns its identifier. Every bit of the child's genome is the first
    /// parent's where the matching bit of a selector drawn from the host is
    /// set, and the second parent's where it is clear. The reserve for the
    /// child is taken from `owner`.
    ///
    /// Refused as `Storage::breed_refusal` says, else with `MoneyNotEnough`
    /// where the ledger will not set the reserve aside; a refusal changes
    /// nothing.
    pub fn do_breed(&mut self, owner: &AccountId, kitty_id1: KittyIndex, kitty_id2: KittyIndex) -> (result:
        Result<KittyIndex, Error>)
        ensures
            match result {
                Ok(new_kitty_id) => {
                    &&& old(self)@.breed_refusal(*owner, kitty_id1, kitty_id2) is None
                    &&& old(self).can_reserve(*owner)
                    &&& new_kitty_id == old(self)@.kitties_count
                    &&& final(self)@ == old(self)@.insert_kitty(
                        *owner,
                        new_kitty_id,
                        combine_spec(
                            old(self)@.kitties[kitty_id1],
                            old(self)@.kitties[kitty_id2],
                            old(self).random_spec(*owner),
                        ),
                        Some((kitty_id1, kitty_id2)),
                    )
                    &&& final(self).host()@ == old(self).host()@.reserve(
                        *owner,
                        old(self).reserve_spec(),
                    )
                },
                Err(error) => {
                    &&& *final(self) == *old(self)
                    &&& match old(self)@.breed_refusal(*owner, kitty_id1, kitty_id2) {
                        Some(refusal) => error == refusal,
                        None => error == Error::MoneyNotEnough && !old(self).can_reserve(*owner),
                    }
                },
            },
            old(self)@.wf() ==> final(self)@.wf(),
            old(self)@.wf() && escrow_in_step(old(self)@, old(self).host()@) ==> escrow_in_step(
                final(self)@,
                final(self).host()@,
            ),
    {
        if kitty_id1 == kitty_id2 {
            return Err(Error::RequiredDiffrentParent);
        }
        let owner1 = match self.kitty_owners(kitty_id1) {
            Some(owner1) => owner1,
            None => {
                return Err(Error::KittyNotExists);
            },
        };
        let owner2 = match self.kitty_owners(kitty_id2) {
            Some(owner2) => owner2,
            None => {
                return Err(Error::KittyNotExists);
            },
        };
        if owner1 != *owner {
            return Err(Error::NotKittyOwner);
        }
        if owner2 != *owner {
            return Err(Error::NotKittyOwner);
        }
        let kitty_1 = match self.kitties(kitty_id1) {
            Some(kitty_1) => kitty_1,
            None => {
                return Err(Error::KittyNotExists);
            },
        };
        let kitty_2 = match self.kitties(kitty_id2) {
            Some(kitty_2) => kitty_2,
            None => {
                return Err(Error::KittyNotExists);
            },
        };
        let kitty_id = match self.next_kitty_id() {
            Ok(kitty_id) => kitty_id,
            Err(error) => {
                return Err(error);
            },
        };

        let selector = self.random_value(owner);
        let new_dna = combine(&kitty_1.0, &kitty_2.0, &selector);
        let kitty = Kitty(new_dna);

        let amount = self.runtime.new_kitty_reserve();
        match self.runtime.reserve(owner, amount) {
            Ok(()) => {},
            Err(_) => {
                return Err(Error::MoneyNotEnough);
            },
        }

        proof {
            if old(self)@.wf() {
                assert(old(self)@.kitty_owners.contains_key(kitty_id1));
                assert(old(self)@.kitty_owners.contains_key(kitty_id2));
                assert(self@.admits(kitty_id, Some((kitty_id1, kitty_id2))));
                if escrow_in_step(old(self)@, old(self).host()@) {
                    lemma_insert_kitty_keeps_escrow(
                        old(self)@,
                        old(self).host()@,
                        *owner,
                        kitty@,
                        Some((kitty_id1, kitty_id2)),
                    );
                }
            }
        }
        self.insert_kitty(owner, kitty_id, kitty, Some((kitty_id1, kitty_id2)));

        Ok(kitty_id)
    }
}

} // verus!
