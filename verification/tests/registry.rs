use kitties::gender::Gender;
use kitties::model::{Error, Origin};
use kitties::pallet::{ensure_signed, Event, Pallet};

const ALICE: u64 = 1;
const BOB: u64 = 2;
const CAROL: u64 = 3;
const DAVE: u64 = 4;

fn dna(text: &str) -> Vec<u8> {
    text.as_bytes().to_vec()
}

fn numbered(n: u8) -> Vec<u8> {
    vec![b'k', n]
}

fn with_dna1() -> Pallet {
    let mut pallet = Pallet::new();
    assert_eq!(
        pallet.create_kitty(Origin::Signed(ALICE), dna("dna1"), 100, 1_000),
        Ok(Event::CreatedKitty(dna("dna1"), ALICE, 1_000))
    );
    pallet
}

fn holders_of(pallet: &Pallet, accounts: &[u64], id: &[u8]) -> usize {
    let mut times = 0;
    for account in accounts {
        for held in pallet.ownership(*account) {
            if held == id {
                times += 1;
            }
        }
    }
    times
}

#[test]
fn new_registry_is_empty() {
    let pallet = Pallet::new();
    assert_eq!(pallet.quantity(), 0);
    assert_eq!(pallet.ownership(ALICE), Vec::<Vec<u8>>::new());
    assert!(pallet.kitty_detail(&dna("dna1")).is_none());
}

#[test]
fn create_succeeds_and_counts() {
    let pallet = with_dna1();
    assert_eq!(pallet.quantity(), 1);
    assert_eq!(pallet.ownership(ALICE), vec![dna("dna1")]);
}

#[test]
fn create_keeps_the_record() {
    let pallet = with_dna1();
    let kitty = pallet.kitty_detail(&dna("dna1")).unwrap();
    assert_eq!(kitty.dna, dna("dna1"));
    assert_eq!(kitty.price, 100);
    assert_eq!(kitty.gender, Gender::Male);
    assert_eq!(kitty.owner, ALICE);
    assert_eq!(kitty.created_date, 1_000);
}

#[test]
fn create_gives_odd_identity_a_female() {
    let mut pallet = Pallet::new();
    pallet.create_kitty(Origin::Signed(ALICE), dna("dna"), 7, 3).unwrap();
    assert_eq!(pallet.kitty_detail(&dna("dna")).unwrap().gender, Gender::Female);
}

#[test]
fn create_again_fails_already_existed() {
    let mut pallet = with_dna1();
    assert_eq!(
        pallet.create_kitty(Origin::Signed(ALICE), dna("dna1"), 100, 2_000),
        Err(Error::AlreadyExisted)
    );
    assert_eq!(pallet.quantity(), 1);
    assert_eq!(pallet.ownership(ALICE), vec![dna("dna1")]);
    assert_eq!(pallet.kitty_detail(&dna("dna1")).unwrap().created_date, 1_000);
}

#[test]
fn create_again_by_another_account_fails_already_existed() {
    let mut pallet = with_dna1();
    assert_eq!(
        pallet.create_kitty(Origin::Signed(BOB), dna("dna1"), 5, 2_000),
        Err(Error::AlreadyExisted)
    );
    assert_eq!(pallet.quantity(), 1);
    assert_eq!(pallet.ownership(BOB), Vec::<Vec<u8>>::new());
    assert_eq!(pallet.kitty_detail(&dna("dna1")).unwrap().owner, ALICE);
}

#[test]
fn create_with_zero_price_fails_price_too_low() {
    let mut pallet = with_dna1();
    assert_eq!(
        pallet.create_kitty(Origin::Signed(ALICE), dna("dna2"), 0, 2_000),
        Err(Error::PriceTooLow)
    );
    assert_eq!(pallet.quantity(), 1);
    assert!(pallet.kitty_detail(&dna("dna2")).is_none());
    assert_eq!(pallet.ownership(ALICE), vec![dna("dna1")]);
}

#[test]
fn create_checks_the_price_before_the_identity() {
    let mut pallet = with_dna1();
    assert_eq!(
        pallet.create_kitty(Origin::Signed(ALICE), dna("dna1"), 0, 2_000),
        Err(Error::PriceTooLow)
    );
}

#[test]
fn create_unsigned_fails_unauthorized() {
    let mut pallet = Pallet::new();
    for origin in [Origin::Root, Origin::Unsigned, Origin::Authorized] {
        assert_eq!(pallet.create_kitty(origin, dna("dna1"), 100, 1), Err(Error::Unauthorized));
    }
    assert_eq!(pallet.quantity(), 0);
    assert!(pallet.kitty_detail(&dna("dna1")).is_none());
}

#[test]
fn create_at_capacity_fails_out_of_bound_and_changes_nothing() {
    let mut pallet = Pallet::new();
    for n in 0..10 {
        pallet.create_kitty(Origin::Signed(ALICE), numbered(n), 1, 1).unwrap();
    }
    let before = pallet.ownership(ALICE);
    assert_eq!(before.len(), 10);
    assert_eq!(
        pallet.create_kitty(Origin::Signed(ALICE), numbered(10), 1, 1),
        Err(Error::OutOfBound)
    );
    assert_eq!(pallet.quantity(), 10);
    assert!(pallet.kitty_detail(&numbered(10)).is_none());
    assert_eq!(pallet.ownership(ALICE), before);
    assert_eq!(
        pallet.create_kitty(Origin::Signed(BOB), numbered(10), 1, 1),
        Ok(Event::CreatedKitty(numbered(10), BOB, 1))
    );
    assert_eq!(pallet.quantity(), 11);
}

#[test]
fn transfer_moves_the_kitty() {
    let mut pallet = with_dna1();
    assert_eq!(
        pallet.transfer_kitty(Origin::Signed(ALICE), dna("dna1"), BOB),
        Ok(Event::TransferKitty(ALICE, BOB, dna("dna1")))
    );
    assert_eq!(pallet.ownership(ALICE), Vec::<Vec<u8>>::new());
    assert_eq!(pallet.ownership(BOB), vec![dna("dna1")]);
    assert_eq!(pallet.quantity(), 1);
}

#[test]
fn transfer_leaves_the_record_as_it_was() {
    let mut pallet = with_dna1();
    let before = pallet.kitty_detail(&dna("dna1")).unwrap().clone();
    pallet.transfer_kitty(Origin::Signed(ALICE), dna("dna1"), BOB).unwrap();
    assert_eq!(pallet.kitty_detail(&dna("dna1")).unwrap(), &before);
    assert_eq!(before.owner, ALICE);
}

#[test]
fn transfer_to_self_fails_owner_already() {
    let mut pallet = with_dna1();
    pallet.transfer_kitty(Origin::Signed(ALICE), dna("dna1"), BOB).unwrap();
    assert_eq!(
        pallet.transfer_kitty(Origin::Signed(BOB), dna("dna1"), BOB),
        Err(Error::OwnerAlready)
    );
    assert_eq!(pallet.ownership(BOB), vec![dna("dna1")]);
}

#[test]
fn transfer_to_self_fails_whatever_the_kitty() {
    let mut pallet = with_dna1();
    assert_eq!(
        pallet.transfer_kitty(Origin::Signed(ALICE), dna("dna1"), ALICE),
        Err(Error::OwnerAlready)
    );
    assert_eq!(
        pallet.transfer_kitty(Origin::Signed(BOB), dna("dna1"), BOB),
        Err(Error::OwnerAlready)
    );
    assert_eq!(
        pallet.transfer_kitty(Origin::Signed(CAROL), dna("nothing"), CAROL),
        Err(Error::OwnerAlready)
    );
    assert_eq!(pallet.ownership(ALICE), vec![dna("dna1")]);
}

#[test]
fn transfer_by_non_holder_fails_not_owner() {
    let mut pallet = with_dna1();
    assert_eq!(
        pallet.transfer_kitty(Origin::Signed(CAROL), dna("dna1"), DAVE),
        Err(Error::NotOwner)
    );
    assert_eq!(pallet.ownership(ALICE), vec![dna("dna1")]);
    assert_eq!(pallet.ownership(CAROL), Vec::<Vec<u8>>::new());
    assert_eq!(pallet.ownership(DAVE), Vec::<Vec<u8>>::new());
    assert_eq!(pallet.quantity(), 1);
}

#[test]
fn transfer_by_former_holder_fails_not_owner() {
    let mut pallet = with_dna1();
    pallet.transfer_kitty(Origin::Signed(ALICE), dna("dna1"), BOB).unwrap();
    assert_eq!(
        pallet.transfer_kitty(Origin::Signed(ALICE), dna("dna1"), CAROL),
        Err(Error::NotOwner)
    );
    assert_eq!(pallet.ownership(BOB), vec![dna("dna1")]);
}

#[test]
fn transfer_of_unknown_kitty_fails_none_existed() {
    let mut pallet = with_dna1();
    assert_eq!(
        pallet.transfer_kitty(Origin::Signed(ALICE), dna("dna2"), BOB),
        Err(Error::NoneExisted)
    );
    assert_eq!(pallet.ownership(ALICE), vec![dna("dna1")]);
    assert_eq!(pallet.ownership(BOB), Vec::<Vec<u8>>::new());
}

#[test]
fn transfer_unsigned_fails_unauthorized() {
    let mut pallet = with_dna1();
    for origin in [Origin::Root, Origin::Unsigned, Origin::Authorized] {
        assert_eq!(pallet.transfer_kitty(origin, dna("dna1"), BOB), Err(Error::Unauthorized));
    }
    assert_eq!(pallet.ownership(ALICE), vec![dna("dna1")]);
}

#[test]
fn transfer_to_full_list_fails_out_of_bound_and_changes_nothing() {
    let mut pallet = Pallet::new();
    for n in 0..10 {
        pallet.create_kitty(Origin::Signed(BOB), numbered(n), 1, 1).unwrap();
    }
    pallet.create_kitty(Origin::Signed(ALICE), dna("a"), 1, 1).unwrap();
    pallet.create_kitty(Origin::Signed(ALICE), dna("b"), 1, 1).unwrap();
    pallet.create_kitty(Origin::Signed(ALICE), dna("c"), 1, 1).unwrap();
    let alice = pallet.ownership(ALICE);
    let bob = pallet.ownership(BOB);
    assert_eq!(
        pallet.transfer_kitty(Origin::Signed(ALICE), dna("a"), BOB),
        Err(Error::OutOfBound)
    );
    assert_eq!(pallet.ownership(ALICE), alice);
    assert_eq!(pallet.ownership(ALICE), vec![dna("a"), dna("b"), dna("c")]);
    assert_eq!(pallet.ownership(BOB), bob);
    assert_eq!(pallet.ownership(BOB).len(), 10);
    assert_eq!(pallet.quantity(), 13);
}

#[test]
fn transfer_checks_the_holder_before_the_receiver() {
    let mut pallet = Pallet::new();
    for n in 0..10 {
        pallet.create_kitty(Origin::Signed(BOB), numbered(n), 1, 1).unwrap();
    }
    pallet.create_kitty(Origin::Signed(ALICE), dna("a"), 1, 1).unwrap();
    assert_eq!(
        pallet.transfer_kitty(Origin::Signed(CAROL), dna("a"), BOB),
        Err(Error::NotOwner)
    );
}

#[test]
fn transfer_fills_the_gap_with_the_last() {
    let mut pallet = Pallet::new();
    for name in ["a", "b", "c", "d"] {
        pallet.create_kitty(Origin::Signed(ALICE), dna(name), 1, 1).unwrap();
    }
    pallet.transfer_kitty(Origin::Signed(ALICE), dna("a"), BOB).unwrap();
    assert_eq!(pallet.ownership(ALICE), vec![dna("d"), dna("b"), dna("c")]);
    pallet.transfer_kitty(Origin::Signed(ALICE), dna("c"), BOB).unwrap();
    assert_eq!(pallet.ownership(ALICE), vec![dna("d"), dna("b")]);
    assert_eq!(pallet.ownership(BOB), vec![dna("a"), dna("c")]);
}

#[test]
fn transfer_frees_a_place_in_a_full_list() {
    let mut pallet = Pallet::new();
    for n in 0..10 {
        pallet.create_kitty(Origin::Signed(ALICE), numbered(n), 1, 1).unwrap();
    }
    pallet.transfer_kitty(Origin::Signed(ALICE), numbered(3), BOB).unwrap();
    assert_eq!(pallet.ownership(ALICE).len(), 9);
    pallet.create_kitty(Origin::Signed(ALICE), numbered(10), 1, 1).unwrap();
    assert_eq!(pallet.ownership(ALICE).len(), 10);
    assert_eq!(pallet.quantity(), 11);
}

#[test]
fn every_kitty_has_one_holder_after_many_calls() {
    let accounts = [ALICE, BOB, CAROL, DAVE];
    let mut pallet = Pallet::new();
    let mut made: Vec<Vec<u8>> = Vec::new();
    for n in 0..24u8 {
        let who = accounts[(n % 3) as usize];
        if pallet.create_kitty(Origin::Signed(who), numbered(n), 1 + n as u32, n as u64).is_ok() {
            made.push(numbered(n));
        }
    }
    for n in 0..24u8 {
        let from = accounts[(n % 3) as usize];
        let to = accounts[((n / 2) % 4) as usize];
        let _ = pallet.transfer_kitty(Origin::Signed(from), numbered(n), to);
        let _ = pallet.transfer_kitty(Origin::Signed(to), numbered(n), DAVE);
    }
    assert_eq!(pallet.quantity(), made.len() as u64);
    for id in &made {
        assert!(pallet.kitty_detail(id).is_some());
        assert_eq!(holders_of(&pallet, &accounts, id), 1);
    }
    let mut held = 0;
    for account in accounts {
        let list = pallet.ownership(account);
        assert!(list.len() <= 10);
        for id in &list {
            assert!(pallet.kitty_detail(id).is_some());
        }
        held += list.len();
    }
    assert_eq!(held, made.len());
}

#[test]
fn ensure_signed_gives_the_signer() {
    assert_eq!(ensure_signed(Origin::Signed(ALICE)), Ok(ALICE));
    assert_eq!(ensure_signed(Origin::Signed(BOB)), Ok(BOB));
    assert_eq!(ensure_signed(Origin::Root), Err(Error::Unauthorized));
    assert_eq!(ensure_signed(Origin::Unsigned), Err(Error::Unauthorized));
    assert_eq!(ensure_signed(Origin::Authorized), Err(Error::Unauthorized));
}
