use kitties::gender::Gender;
use kitties::kitty::{Kitty, KittyDetail};

fn kitty(name: &str, price: u32) -> Kitty {
    Kitty {
        dna: name.as_bytes().to_vec(),
        price,
        gender: Gender::Male,
        owner: 5,
        created_date: 77,
    }
}

#[test]
fn ledger_starts_without_records() {
    let ledger = KittyDetail::new();
    assert_eq!(ledger.quantity(), 0);
    assert!(!ledger.contains_key(&b"a".to_vec()));
    assert!(ledger.get(&b"a".to_vec()).is_none());
}

#[test]
fn ledger_insert_counts_by_one() {
    let mut ledger = KittyDetail::new();
    ledger.insert(kitty("a", 1));
    assert_eq!(ledger.quantity(), 1);
    ledger.insert(kitty("b", 2));
    assert_eq!(ledger.quantity(), 2);
    ledger.insert(kitty("c", 3));
    assert_eq!(ledger.quantity(), 3);
}

#[test]
fn ledger_finds_a_record_by_its_identity() {
    let mut ledger = KittyDetail::new();
    ledger.insert(kitty("a", 1));
    ledger.insert(kitty("b", 2));
    assert!(ledger.contains_key(&b"a".to_vec()));
    assert!(ledger.contains_key(&b"b".to_vec()));
    assert!(!ledger.contains_key(&b"c".to_vec()));
    assert!(!ledger.contains_key(&b"ab".to_vec()));
    assert_eq!(ledger.get(&b"b".to_vec()), Some(&kitty("b", 2)));
    assert_eq!(ledger.get(&b"a".to_vec()).unwrap().price, 1);
    assert_eq!(ledger.get(&b"c".to_vec()), None);
}
