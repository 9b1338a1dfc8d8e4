//! What holds of every run of requests: identifiers only rise, no
//! identifier is given twice, and a registry in order stays in order.

use crate::dna::combine_spec;
use crate::storage::lemma_insert_kitty_wf;
use crate::storage::lemma_reassign_wf;
use crate::storage::Storage;
use crate::types::AccountId;
use crate::types::KittyIndex;
use vstd::prelude::*;

verus! {

/// A request that the registry carried out, with the bytes that it drew.
pub enum Request {
    /// `sender` made a kitty with genome `dna`.
    Create { sender: AccountId, dna: Seq<u8> },
    /// `sender` gave `kitty_id` to `to`.
    Transfer { sender: AccountId, to: AccountId, kitty_id: KittyIndex },
    /// `sender` bred `kitty_id1` with `kitty_id2` under `selector`.
    Breed { sender: AccountId, kitty_id1: KittyIndex, kitty_id2: KittyIndex, selector: Seq<u8> },
}

impl Storage {
    /// Whether the registry lets `request` pass. (The ledger has its own
    /// say; a request that it turns down is not carried out.)
    pub open spec fn permits(self, request: Request) -> bool {
        match request {
            Request::Create { .. } => self.next_kitty_id() is Ok,
            Request::Transfer { sender, to, kitty_id } => self.transfer_refusal(sender, to, kitty_id)
                is None,
            Request::Breed { sender, kitty_id1, kitty_id2, .. } => self.breed_refusal(
                sender,
                kitty_id1,
                kitty_id2,
            ) is None,
        }
    }

    /// The identifier that `request` gives to a new kitty, if it makes one.
    pub open spec fn assigns(self, request: Request) -> Option<KittyIndex> {
        match request {
            Request::Transfer { .. } => None,
            _ => Some(self.kitties_count),
        }
    }

    /// The registry after `request` was carried out.
    pub open spec fn apply(self, request: Request) -> Storage {
        match request {
            Request::Create { sender, dna } => self.insert_kitty(
                sender,
                self.kitties_count,
                dna,
                None,
            ),
            Request::Transfer { sender, to, kitty_id } => self.reassign(sender, to, kitty_id),
            Request::Breed { sender, kitty_id1, kitty_id2, selector } => self.insert_kitty(
                sender,
                self.kitties_count,
                combine_spec(self.kitties[kitty_id1], self.kitties[kitty_id2], selector),
                Some((kitty_id1, kitty_id2)),
            ),
        }
    }

    /// The registry after the first `n` of `requests` were carried out in turn.
    pub open spec fn after(self, requests: Seq<Request>, n: nat) -> Storage
        decreases n,
    {
        if n == 0 {
            self
        } else {
            self.after(requests, (n - 1) as nat).apply(requests[n - 1])
        }
    }

    /// Each of `requests` was let pass by the registry as the ones before it
    /// had left it.
    pub open spec fn carries_out(self, requests: Seq<Request>) -> bool {
        forall|n: nat| n < requests.len() ==> #[trigger] self.after(requests, n).permits(requests[n as int])
    }
}

/// A request that the registry lets pass never lowers the next identifier,
/// and raises it by one where it makes a kitty.
pub proof fn lemma_apply_count(s: Storage, request: Request)
    requires
        s.permits(request),
    ensures
        s.assigns(request) is None ==> s.apply(request).kitties_count == s.kitties_count,
        s.assigns(request) is Some ==> s.apply(request).kitties_count == s.kitties_count + 1,
{
}

/// A request that the registry lets pass keeps a registry in order.
pub proof fn lemma_apply_wf(s: Storage, request: Request)
    requires
        s.wf(),
        s.permits(request),
    ensures
        s.apply(request).wf(),
{
    match request {
        Request::Create { sender, dna } => {
            lemma_insert_kitty_wf(s, sender, s.kitties_count, dna, None);
        },
        Request::Transfer { sender, to, kitty_id } => {
            lemma_reassign_wf(s, sender, to, kitty_id);
        },
        Request::Breed { sender, kitty_id1, kitty_id2, selector } => {
            assert(s.kitty_owners.contains_key(kitty_id1));
            assert(s.kitty_owners.contains_key(kitty_id2));
            lemma_insert_kitty_wf(
                s,
                sender,
                s.kitties_count,
                combine_spec(s.kitties[kitty_id1], s.kitties[kitty_id2], selector),
                Some((kitty_id1, kitty_id2)),
            );
        },
    }
}

/// Over any run of requests the next identifier never falls.
pub proof fn lemma_count_never_falls(start: Storage, requests: Seq<Request>, i: nat, j: nat)
    requires
        start.carries_out(requests),
        i <= j <= requests.len(),
    ensures
        start.after(requests, i).kitties_count <= start.after(requests, j).kitties_count,
    decreases j,
{
    if i < j {
        let before = (j - 1) as nat;
        lemma_count_never_falls(start, requests, i, before);
        assert(start.after(requests, before).permits(requests[before as int]));
        lemma_apply_count(start.after(requests, before), requests[before as int]);
    }
}

/// Identifiers rise strictly: of two requests in one run that each made a
/// kitty, the later one gave the larger identifier. So no identifier is
/// given twice.
pub proof fn lemma_ids_strictly_increasing(start: Storage, requests: Seq<Request>, i: nat, j: nat)
    requires
        start.carries_out(requests),
        i < j < requests.len(),
        start.after(requests, i).assigns(requests[i as int]) is Some,
        start.after(requests, j).assigns(requests[j as int]) is Some,
    ensures
        start.after(requests, i).assigns(requests[i as int])->Some_0 < start.after(
            requests,
            j,
        ).assigns(requests[j as int])->Some_0,
{
    assert(start.after(requests, i).permits(requests[i as int]));
    lemma_apply_count(start.after(requests, i), requests[i as int]);
    assert(start.after(requests, i + 1) == start.after(requests, i).apply(requests[i as int]));
    lemma_count_never_falls(start, requests, i + 1, j);
}

/// In a registry that is in order, the identifier that a new kitty gets is
/// fresh: nothing is on record under it, neither a genome nor an owner nor
/// parents, and no account has it on record as owned.
pub proof fn lemma_assigned_id_is_fresh(s: Storage, request: Request, owner: AccountId)
    requires
        s.wf(),
        s.assigns(request) is Some,
    ensures
        !s.kitties.contains_key(s.assigns(request)->Some_0),
        !s.kitty_owners.contains_key(s.assigns(request)->Some_0),
        !s.kitty_parents.contains_key(s.assigns(request)->Some_0),
        !s.owned_kitties.contains((owner, s.assigns(request)->Some_0)),
{
    let id = s.kitties_count;
    assert(s.owned_kitties.contains((owner, id)) <==> s.kitty_owners.contains_key(id)
        && s.kitty_owners[id] == owner);
}

/// A registry that is in order stays in order over any run of requests.
pub proof fn lemma_run_keeps_wf(start: Storage, requests: Seq<Request>, n: nat)
    requires
        start.wf(),
        start.carries_out(requests),
        n <= requests.len(),
    ensures
        start.after(requests, n).wf(),
    decreases n,
{
    if n > 0 {
        let before = (n - 1) as nat;
        lemma_run_keeps_wf(start, requests, before);
        assert(start.after(requests, before).permits(requests[before as int]));
        lemma_apply_wf(start.after(requests, before), requests[before as int]);
    }
}

/// A request that was refused is refused again for the same reason: the
/// refusal is read off the records, and a refusal leaves them as they were.
pub proof fn lemma_refusal_repeats(
    s: Storage,
    sender: AccountId,
    to: AccountId,
    kitty_id1: KittyIndex,
    kitty_id2: KittyIndex,
)
    ensures
        s.transfer_refusal(sender, to, kitty_id1) is Some ==> !s.permits(
            Request::Transfer { sender, to, kitty_id: kitty_id1 },
        ),
        s.breed_refusal(sender, kitty_id1, kitty_id2) is Some ==> forall|selector: Seq<u8>|
            !s.permits(Request::Breed { sender, kitty_id1, kitty_id2, selector }),
{
}

} // verus!
