use kitties::combine;
use kitties::Error;
use kitties::Event;
use kitties::Kitty;
use kitties::KittyIndex;
use kitties::MemoryRuntime;
use kitties::Module;

const A: u64 = 1;
const B: u64 = 2;
const C: u64 = 3;
const R: u128 = 10;

fn seed() -> [u8; 32] {
    let mut seed = [0u8; 32];
    for i in 0..32 {
        seed[i] = i as u8;
    }
    seed
}

fn registry(funds: &[(u64, u128)]) -> Module<MemoryRuntime> {
    let mut runtime = MemoryRuntime::new(R, seed(), Some(0));
    for (who, amount) in funds {
        assert!(runtime.deposit(*who, *amount));
    }
    Module::new(runtime)
}

#[test]
fn a_new_registry_is_empty() {
    let module = registry(&[]);
    assert_eq!(module.kitties_count(), 0);
    assert!(module.kitties(0).is_none());
    assert_eq!(module.kitty_owners(0), None);
    assert_eq!(module.owned_by(A), Vec::<KittyIndex>::new());
    assert_eq!(module.next_kitty_id(), Ok(0));
}

#[test]
fn create_gives_the_first_kitty_to_the_caller_and_reserves_for_it() {
    let mut module = registry(&[(A, 100)]);
    let expected_dna = module.random_value(&A);

    assert_eq!(module.create(A), Ok(Event::Created(A, 0)));

    assert_eq!(module.kitties_count(), 1);
    assert_eq!(module.kitty_owners(0), Some(A));
    assert_eq!(module.owned_kitties(A, 0), Some(0));
    assert_eq!(module.owned_by(A), vec![0]);
    assert_eq!(module.kitties(0).unwrap().0, expected_dna);
    assert_eq!(module.kitty_parents(0), None);
    assert_eq!(module.children_of(0), Vec::<KittyIndex>::new());
    assert_eq!(module.partners_of(0), Vec::<KittyIndex>::new());
    assert_eq!(module.runtime().reserved_balance(A), R);
    assert_eq!(module.runtime().free_balance(A), 100 - R);
}

#[test]
fn breed_records_the_child_its_parents_and_their_partnership() {
    let mut module = registry(&[(A, 100)]);
    assert_eq!(module.create(A), Ok(Event::Created(A, 0)));
    module.runtime_mut().set_extrinsic_index(Some(1));
    assert_eq!(module.create(A), Ok(Event::Created(A, 1)));
    assert_eq!(module.runtime().reserved_balance(A), 2 * R);

    module.runtime_mut().set_extrinsic_index(Some(2));
    let genome0 = module.kitties(0).unwrap().0;
    let genome1 = module.kitties(1).unwrap().0;
    assert_ne!(genome0, genome1);
    let selector = module.random_value(&A);

    assert_eq!(module.breed(A, 0, 1), Ok(Event::Created(A, 2)));

    assert_eq!(module.kitties_count(), 3);
    assert_eq!(module.kitty_owners(2), Some(A));
    assert_eq!(module.owned_by(A), vec![0, 1, 2]);
    assert_eq!(module.kitty_parents(2), Some((0, 1)));
    let child = module.kitties(2).unwrap().0;
    assert_eq!(child, combine(&genome0, &genome1, &selector));
    for i in 0..16 {
        assert_eq!(child[i], (selector[i] & genome0[i]) | (!selector[i] & genome1[i]));
    }
    assert_eq!(module.children_of(0), vec![2]);
    assert_eq!(module.children_of(1), vec![2]);
    assert_eq!(module.kitty_children(0, 2), Some(2));
    assert_eq!(module.kitty_children(1, 2), Some(2));
    assert_eq!(module.kitty_children(2, 0), None);
    assert_eq!(module.partners_of(0), vec![1]);
    assert_eq!(module.partners_of(1), vec![0]);
    assert_eq!(module.kitty_partners(0, 1), Some(1));
    assert_eq!(module.kitty_partners(1, 0), Some(0));
    assert_eq!(module.partners_of(2), Vec::<KittyIndex>::new());
    assert_eq!(module.runtime().reserved_balance(A), 3 * R);
    assert_eq!(module.runtime().free_balance(A), 100 - 3 * R);
}

#[test]
fn transfer_moves_the_kitty_and_the_reserve() {
    let mut module = registry(&[(A, 100), (B, 50)]);
    assert_eq!(module.create(A), Ok(Event::Created(A, 0)));

    assert_eq!(module.transfer(A, B, 0), Ok(Event::Transferred(A, B, 0)));

    assert_eq!(module.kitty_owners(0), Some(B));
    assert_eq!(module.owned_by(A), Vec::<KittyIndex>::new());
    assert_eq!(module.owned_kitties(A, 0), None);
    assert_eq!(module.owned_by(B), vec![0]);
    assert_eq!(module.owned_kitties(B, 0), Some(0));
    assert_eq!(module.runtime().reserved_balance(A), 0);
    assert_eq!(module.runtime().free_balance(A), 100);
    assert_eq!(module.runtime().reserved_balance(B), R);
    assert_eq!(module.runtime().free_balance(B), 50 - R);
    assert_eq!(module.kitties_count(), 1);
}

#[test]
fn transfer_to_an_account_short_of_funds_changes_nothing() {
    let mut module = registry(&[(A, 100), (B, R - 1)]);
    assert_eq!(module.create(A), Ok(Event::Created(A, 0)));

    assert_eq!(module.transfer(A, B, 0), Err(Error::MoneyNotEnough));

    assert_eq!(module.kitty_owners(0), Some(A));
    assert_eq!(module.owned_by(A), vec![0]);
    assert_eq!(module.owned_by(B), Vec::<KittyIndex>::new());
    assert_eq!(module.runtime().reserved_balance(A), R);
    assert_eq!(module.runtime().free_balance(A), 100 - R);
    assert_eq!(module.runtime().reserved_balance(B), 0);
    assert_eq!(module.runtime().free_balance(B), R - 1);

    assert_eq!(module.transfer(A, B, 0), Err(Error::MoneyNotEnough));
    assert_eq!(module.kitty_owners(0), Some(A));
}

#[test]
fn transfer_is_refused_for_each_reason_in_turn() {
    let mut module = registry(&[(A, 100), (B, 100)]);
    assert_eq!(module.create(A), Ok(Event::Created(A, 0)));

    assert_eq!(module.transfer(A, B, 7), Err(Error::KittyNotExists));
    assert_eq!(module.transfer(A, A, 7), Err(Error::KittyNotExists));
    assert_eq!(module.transfer(B, C, 0), Err(Error::NotKittyOwner));
    assert_eq!(module.transfer(B, B, 0), Err(Error::NotKittyOwner));
    assert_eq!(module.transfer(A, A, 0), Err(Error::TransferToSelf));
    assert_eq!(module.transfer(A, C, 0), Err(Error::MoneyNotEnough));

    assert_eq!(module.kitty_owners(0), Some(A));
    assert_eq!(module.owned_by(A), vec![0]);
    assert_eq!(module.owned_by(B), Vec::<KittyIndex>::new());
    assert_eq!(module.owned_by(C), Vec::<KittyIndex>::new());
    assert_eq!(module.runtime().reserved_balance(A), R);
    assert_eq!(module.runtime().reserved_balance(B), 0);
    assert_eq!(module.runtime().reserved_balance(C), 0);
    assert_eq!(module.runtime().free_balance(A), 100 - R);
    assert_eq!(module.runtime().free_balance(B), 100);
}

#[test]
fn breed_is_refused_for_each_reason_in_turn() {
    let mut module = registry(&[(A, 2 * R), (B, 100)]);
    assert_eq!(module.create(A), Ok(Event::Created(A, 0)));
    assert_eq!(module.create(A), Ok(Event::Created(A, 1)));
    assert_eq!(module.create(B), Ok(Event::Created(B, 2)));

    assert_eq!(module.breed(A, 0, 0), Err(Error::RequiredDiffrentParent));
    assert_eq!(module.breed(A, 9, 9), Err(Error::RequiredDiffrentParent));
    assert_eq!(module.breed(A, 0, 9), Err(Error::KittyNotExists));
    assert_eq!(module.breed(A, 9, 0), Err(Error::KittyNotExists));
    assert_eq!(module.breed(A, 2, 9), Err(Error::KittyNotExists));
    assert_eq!(module.breed(A, 0, 2), Err(Error::NotKittyOwner));
    assert_eq!(module.breed(A, 2, 0), Err(Error::NotKittyOwner));
    assert_eq!(module.breed(B, 0, 1), Err(Error::NotKittyOwner));
    assert_eq!(module.breed(A, 0, 1), Err(Error::MoneyNotEnough));
    assert_eq!(module.do_breed(&A, 1, 0), Err(Error::MoneyNotEnough));

    assert_eq!(module.kitties_count(), 3);
    assert!(module.kitties(3).is_none());
    assert_eq!(module.children_of(0), Vec::<KittyIndex>::new());
    assert_eq!(module.partners_of(0), Vec::<KittyIndex>::new());
    assert_eq!(module.runtime().reserved_balance(A), 2 * R);
    assert_eq!(module.runtime().free_balance(A), 0);
    assert_eq!(module.runtime().reserved_balance(B), R);
}

#[test]
fn do_breed_returns_the_new_identifier() {
    let mut module = registry(&[(A, 100)]);
    assert_eq!(module.create(A), Ok(Event::Created(A, 0)));
    assert_eq!(module.create(A), Ok(Event::Created(A, 1)));
    assert_eq!(module.do_breed(&A, 1, 0), Ok(2));
    assert_eq!(module.kitty_parents(2), Some((1, 0)));
    assert_eq!(module.do_breed(&A, 2, 0), Ok(3));
    assert_eq!(module.children_of(0), vec![2, 3]);
    assert_eq!(module.partners_of(0), vec![1, 2]);
    assert_eq!(module.partners_of(2), vec![0]);
}

#[test]
fn create_without_funds_changes_nothing() {
    let mut module = registry(&[(A, R - 1)]);
    assert_eq!(module.create(A), Err(Error::MoneyNotEnough));
    assert_eq!(module.kitties_count(), 0);
    assert_eq!(module.kitty_owners(0), None);
    assert!(module.kitties(0).is_none());
    assert_eq!(module.owned_by(A), Vec::<KittyIndex>::new());
    assert_eq!(module.runtime().reserved_balance(A), 0);
    assert_eq!(module.runtime().free_balance(A), R - 1);
}

#[test]
fn create_is_refused_once_the_count_has_reached_the_largest_identifier() {
    let mut module = registry(&[(A, 100)]);
    module.insert_kitty(&A, KittyIndex::MAX - 2, Kitty([7u8; 16]), None);
    assert_eq!(module.kitties_count(), KittyIndex::MAX - 1);
    assert_eq!(module.next_kitty_id(), Ok(KittyIndex::MAX - 1));

    assert_eq!(module.create(A), Ok(Event::Created(A, KittyIndex::MAX - 1)));
    assert_eq!(module.kitties_count(), KittyIndex::MAX);
    assert_eq!(module.runtime().reserved_balance(A), R);

    assert_eq!(module.next_kitty_id(), Err(Error::KittiesCountOverflow));
    assert_eq!(module.create(A), Err(Error::KittiesCountOverflow));
    assert_eq!(module.kitties_count(), KittyIndex::MAX);
    assert_eq!(module.kitty_owners(KittyIndex::MAX), None);
    assert!(module.kitties(KittyIndex::MAX).is_none());
    assert_eq!(module.runtime().reserved_balance(A), R);
    assert_eq!(module.runtime().free_balance(A), 100 - R);

    assert_eq!(
        module.breed(A, KittyIndex::MAX - 2, KittyIndex::MAX - 1),
        Err(Error::KittiesCountOverflow)
    );
    assert_eq!(module.runtime().reserved_balance(A), R);
}

#[test]
fn identifiers_rise_by_one_with_every_kitty_and_transfers_leave_them() {
    let mut module = registry(&[(A, 1000), (B, 1000)]);
    let mut last: Option<KittyIndex> = None;
    for round in 0..20u32 {
        module.runtime_mut().set_extrinsic_index(Some(round));
        let event = if round % 3 == 2 {
            module.breed(A, 0, 1)
        } else {
            module.create(A)
        };
        let id = match event {
            Ok(Event::Created(owner, id)) => {
                assert_eq!(owner, A);
                id
            }
            other => panic!("{:?}", other),
        };
        if let Some(last) = last {
            assert_eq!(id, last + 1);
        } else {
            assert_eq!(id, 0);
        }
        last = Some(id);
        if round == 10 {
            assert_eq!(module.transfer(A, B, 5), Ok(Event::Transferred(A, B, 5)));
            assert_eq!(module.kitties_count(), id + 1);
        }
    }
    assert_eq!(module.kitties_count(), 20);
    assert_eq!(module.owned_by(B), vec![5]);
    assert_eq!(module.owned_by(A).len(), 19);
    assert_eq!(module.runtime().reserved_balance(A), 19 * R);
    assert_eq!(module.runtime().reserved_balance(B), R);
}

#[test]
fn insert_kitty_writes_every_record() {
    let mut module = registry(&[]);
    module.insert_kitty(&A, 0, Kitty([1u8; 16]), None);
    module.insert_kitty(&B, 1, Kitty([2u8; 16]), None);
    module.insert_kitty(&C, 2, Kitty([3u8; 16]), Some((0, 1)));

    assert_eq!(module.kitties_count(), 3);
    assert_eq!(module.kitties(0).unwrap().0, [1u8; 16]);
    assert_eq!(module.kitties(1).unwrap().0, [2u8; 16]);
    assert_eq!(module.kitties(2).unwrap().0, [3u8; 16]);
    assert_eq!(module.kitty_owners(2), Some(C));
    assert_eq!(module.owned_kitties(C, 2), Some(2));
    assert_eq!(module.owned_kitties(C, 1), None);
    assert_eq!(module.kitty_parents(2), Some((0, 1)));
    assert_eq!(module.kitty_parents(1), None);
    assert_eq!(module.kitty_children(0, 2), Some(2));
    assert_eq!(module.kitty_children(1, 2), Some(2));
    assert_eq!(module.kitty_partners(0, 1), Some(1));
    assert_eq!(module.kitty_partners(1, 0), Some(0));
    assert_eq!(module.kitty_partners(0, 2), None);
    assert_eq!(module.runtime().reserved_balance(C), 0);
}

#[test]
fn transfer_releases_no_more_than_the_sender_has_in_reserve() {
    let mut module = registry(&[(B, 100)]);
    module.insert_kitty(&A, 0, Kitty([1u8; 16]), None);
    assert_eq!(module.runtime().reserved_balance(A), 0);

    assert_eq!(module.transfer(A, B, 0), Ok(Event::Transferred(A, B, 0)));

    assert_eq!(module.kitty_owners(0), Some(B));
    assert_eq!(module.runtime().reserved_balance(A), 0);
    assert_eq!(module.runtime().free_balance(A), 0);
    assert_eq!(module.runtime().reserved_balance(B), R);
}

#[test]
fn a_kitty_can_come_back_to_its_first_owner() {
    let mut module = registry(&[(A, 100), (B, 100)]);
    assert_eq!(module.create(A), Ok(Event::Created(A, 0)));
    assert_eq!(module.transfer(A, B, 0), Ok(Event::Transferred(A, B, 0)));
    assert_eq!(module.transfer(A, B, 0), Err(Error::NotKittyOwner));
    assert_eq!(module.transfer(B, A, 0), Ok(Event::Transferred(B, A, 0)));
    assert_eq!(module.owned_by(A), vec![0]);
    assert_eq!(module.owned_by(B), Vec::<KittyIndex>::new());
    assert_eq!(module.runtime().reserved_balance(A), R);
    assert_eq!(module.runtime().reserved_balance(B), 0);
    assert_eq!(module.runtime().free_balance(B), 100);
}
