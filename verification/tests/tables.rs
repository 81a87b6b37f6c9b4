use kitties::kitties::Kitties;
use kitties::kitties_owned::KittiesOwned;
use kitties::lookup::{find, same_bytes};
use kitties::{AccountId, Error, Kitty, MAX_KITTIES_OWNED};

const X: AccountId = [1u8; 32];
const Y: AccountId = [2u8; 32];

fn id(n: u32) -> [u8; 32] {
    let mut bytes = [0u8; 32];
    bytes[..4].copy_from_slice(&n.to_le_bytes());
    bytes
}

#[test]
fn same_bytes_compares_every_byte() {
    let a = [7u8; 32];
    let mut b = [7u8; 32];
    assert!(same_bytes(&a, &b));
    b[31] = 8;
    assert!(!same_bytes(&a, &b));
    b[31] = 7;
    b[0] = 6;
    assert!(!same_bytes(&a, &b));
    b[0] = 7;
    b[16] = 0;
    assert!(!same_bytes(&a, &b));
}

#[test]
fn find_gives_the_first_position() {
    let keys = vec![id(3), id(1), id(3), id(2)];
    assert_eq!(find(&keys, &id(3)), Some(0));
    assert_eq!(find(&keys, &id(1)), Some(1));
    assert_eq!(find(&keys, &id(2)), Some(3));
    assert_eq!(find(&keys, &id(4)), None);
    assert_eq!(find(&Vec::new(), &id(3)), None);
}

#[test]
fn table_of_kitties_inserts_and_overwrites() {
    let mut table = Kitties::new();
    assert_eq!(table.len(), 0);
    assert!(!table.contains_key(&id(1)));
    assert_eq!(table.get(&id(1)), None);
    table.insert(id(1), Kitty { dna: id(1), owner: X, price: None });
    table.insert(id(2), Kitty { dna: id(2), owner: Y, price: Some(3) });
    assert_eq!(table.len(), 2);
    assert!(table.contains_key(&id(1)));
    assert!(table.contains_key(&id(2)));
    assert!(!table.contains_key(&id(3)));
    assert_eq!(table.get(&id(2)), Some(Kitty { dna: id(2), owner: Y, price: Some(3) }));
    table.insert(id(1), Kitty { dna: id(1), owner: Y, price: Some(9) });
    assert_eq!(table.len(), 2);
    assert_eq!(table.get(&id(1)), Some(Kitty { dna: id(1), owner: Y, price: Some(9) }));
    assert_eq!(table.get(&id(2)), Some(Kitty { dna: id(2), owner: Y, price: Some(3) }));
}

#[test]
fn inventory_of_an_unknown_account_is_empty() {
    let index = KittiesOwned::new();
    assert_eq!(index.get(&X), Vec::<[u8; 32]>::new());
    assert_eq!(index.count(&X), 0);
}

#[test]
fn try_append_keeps_the_order_and_the_accounts_apart() {
    let mut index = KittiesOwned::new();
    assert_eq!(index.try_append(X, id(1)), Ok(()));
    assert_eq!(index.try_append(Y, id(2)), Ok(()));
    assert_eq!(index.try_append(X, id(3)), Ok(()));
    assert_eq!(index.get(&X), vec![id(1), id(3)]);
    assert_eq!(index.get(&Y), vec![id(2)]);
    assert_eq!(index.count(&X), 2);
    assert_eq!(index.count(&Y), 1);
}

#[test]
fn try_append_stops_at_the_bound() {
    let mut index = KittiesOwned::new();
    for n in 0..MAX_KITTIES_OWNED {
        assert_eq!(index.count(&X), n as usize);
        assert_eq!(index.try_append(X, id(n)), Ok(()));
    }
    let full = index.get(&X);
    assert_eq!(full.len(), 100);
    assert_eq!(index.try_append(X, id(MAX_KITTIES_OWNED)), Err(Error::TooManyOwned));
    assert_eq!(index.get(&X), full);
    assert_eq!(index.try_append(Y, id(MAX_KITTIES_OWNED)), Ok(()));
    assert_eq!(index.remove(&X, &id(0)), Ok(()));
    assert_eq!(index.try_append(X, id(MAX_KITTIES_OWNED)), Ok(()));
    assert_eq!(index.count(&X), MAX_KITTIES_OWNED as usize);
    assert_eq!(index.try_append(X, id(0)), Err(Error::TooManyOwned));
}

#[test]
fn remove_puts_the_last_item_in_the_gap() {
    let mut index = KittiesOwned::new();
    for n in 1..=5 {
        assert_eq!(index.try_append(X, id(n)), Ok(()));
    }
    assert_eq!(index.remove(&X, &id(2)), Ok(()));
    assert_eq!(index.get(&X), vec![id(1), id(5), id(3), id(4)]);
    assert_eq!(index.remove(&X, &id(4)), Ok(()));
    assert_eq!(index.get(&X), vec![id(1), id(5), id(3)]);
    assert_eq!(index.remove(&X, &id(1)), Ok(()));
    assert_eq!(index.get(&X), vec![id(3), id(5)]);
    assert_eq!(index.remove(&X, &id(3)), Ok(()));
    assert_eq!(index.remove(&X, &id(5)), Ok(()));
    assert_eq!(index.get(&X), Vec::<[u8; 32]>::new());
    assert_eq!(index.count(&X), 0);
    assert_eq!(index.try_append(X, id(7)), Ok(()));
    assert_eq!(index.get(&X), vec![id(7)]);
}

#[test]
fn remove_takes_the_first_of_two_equal_items() {
    let mut index = KittiesOwned::new();
    for n in [1u32, 2, 1, 3] {
        assert_eq!(index.try_append(X, id(n)), Ok(()));
    }
    assert_eq!(index.remove(&X, &id(1)), Ok(()));
    assert_eq!(index.get(&X), vec![id(3), id(2), id(1)]);
}

#[test]
fn remove_of_what_is_not_owned_is_refused() {
    let mut index = KittiesOwned::new();
    assert_eq!(index.remove(&X, &id(1)), Err(Error::NoKitty));
    assert_eq!(index.try_append(X, id(1)), Ok(()));
    assert_eq!(index.remove(&Y, &id(1)), Err(Error::NoKitty));
    assert_eq!(index.remove(&X, &id(2)), Err(Error::NoKitty));
    assert_eq!(index.get(&X), vec![id(1)]);
    assert_eq!(index.get(&Y), Vec::<[u8; 32]>::new());
}
