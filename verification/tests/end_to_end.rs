use kitties::{AccountId, Balance, BlockContext, Error, Event, Kitty, Pallet, Payment, MAX_KITTIES_OWNED};
use std::collections::HashMap;

const X: AccountId = [1u8; 32];
const Y: AccountId = [2u8; 32];

fn context() -> BlockContext {
    BlockContext { parent_hash: [9u8; 32], block_number: 7, extrinsic_index: Some(3) }
}

fn id(n: u32) -> [u8; 32] {
    let mut bytes = [0u8; 32];
    bytes[..4].copy_from_slice(&n.to_le_bytes());
    bytes[31] = 0xee;
    bytes
}

/// A ledger for the tests: balances by account, and a transfer that fails
/// where the payer's funds do not suffice.
struct Ledger {
    balances: HashMap<AccountId, Balance>,
    transfers: usize,
}

impl Ledger {
    fn with(accounts: &[(AccountId, Balance)]) -> Ledger {
        Ledger { balances: accounts.iter().cloned().collect(), transfers: 0 }
    }

    fn balance(&self, who: &AccountId) -> Balance {
        self.balances.get(who).cloned().unwrap_or(0)
    }

    fn transfer(&mut self, payment: &Payment) -> Result<(), String> {
        let funds = self.balance(&payment.from);
        if funds < payment.amount {
            return Err(String::from("funds do not suffice"));
        }
        self.balances.insert(payment.from, funds - payment.amount);
        let received = self.balance(&payment.to);
        self.balances.insert(payment.to, received + payment.amount);
        self.transfers += 1;
        Ok(())
    }
}

#[derive(Debug, PartialEq)]
enum Refusal {
    Registry(Error),
    Ledger(String),
}

/// A purchase from end to end: the registry names the payment, the ledger
/// makes it, the registry hands the kitty over.
fn purchase(
    pallet: &mut Pallet,
    ledger: &mut Ledger,
    buyer: AccountId,
    kitty_id: [u8; 32],
    max_price: Balance,
) -> Result<(), Refusal> {
    let due = pallet.buy_kitty(buyer, kitty_id, max_price).map_err(Refusal::Registry)?;
    ledger.transfer(&due).map_err(Refusal::Ledger)?;
    pallet.do_buy_kitty(buyer, kitty_id, max_price).map_err(Refusal::Registry)
}

#[test]
fn minted_kitty_is_counted_and_stands_in_its_owners_inventory() {
    let mut pallet = Pallet::new();
    assert_eq!(pallet.kitty_count(), 0);
    let a = pallet.create_kitty(X, &context()).unwrap();
    assert_eq!(pallet.kitty_count(), 1);
    assert_eq!(pallet.kitties_owned(&X), vec![a]);
    assert_eq!(pallet.kitties_owned(&Y), Vec::<[u8; 32]>::new());
    assert_eq!(pallet.kitties(&a), Some(Kitty { dna: a, owner: X, price: None }));
    assert_eq!(pallet.events(), &vec![Event::Created { owner: X }]);
}

#[test]
fn transfer_moves_the_kitty_to_the_recipient() {
    let mut pallet = Pallet::new();
    let a = pallet.create_kitty(X, &context()).unwrap();
    assert_eq!(pallet.transfer(X, Y, a), Ok(()));
    assert_eq!(pallet.kitties(&a).unwrap().owner, Y);
    assert_eq!(pallet.kitties_owned(&X), Vec::<[u8; 32]>::new());
    assert_eq!(pallet.kitties_owned(&Y), vec![a]);
    assert_eq!(pallet.kitty_count(), 1);
    assert_eq!(
        pallet.events(),
        &vec![Event::Created { owner: X }, Event::Transferred { from: X, to: Y, kitty_id: a }]
    );
}

#[test]
fn transfer_to_oneself_is_refused_and_changes_nothing() {
    let mut pallet = Pallet::new();
    let a = pallet.create_kitty(X, &context()).unwrap();
    assert_eq!(pallet.transfer(X, X, a), Err(Error::TransferToSelf));
    assert_eq!(pallet.do_transfer(X, X, a), Err(Error::TransferToSelf));
    assert_eq!(pallet.kitty_count(), 1);
    assert_eq!(pallet.kitties(&a), Some(Kitty { dna: a, owner: X, price: None }));
    assert_eq!(pallet.kitties_owned(&X), vec![a]);
    assert_eq!(pallet.events(), &vec![Event::Created { owner: X }]);
}

#[test]
fn purchase_below_the_price_is_refused_and_moves_no_funds() {
    let mut pallet = Pallet::new();
    let mut ledger = Ledger::with(&[(X, 1_000), (Y, 1_000)]);
    let a = pallet.create_kitty(X, &context()).unwrap();
    assert_eq!(pallet.set_price(X, a, Some(100)), Ok(()));
    assert_eq!(pallet.buy_kitty(Y, a, 50), Err(Error::MaxPriceTooLow));
    assert_eq!(pallet.do_buy_kitty(Y, a, 50), Err(Error::MaxPriceTooLow));
    assert_eq!(
        purchase(&mut pallet, &mut ledger, Y, a, 50),
        Err(Refusal::Registry(Error::MaxPriceTooLow))
    );
    assert_eq!(ledger.transfers, 0);
    assert_eq!(ledger.balance(&X), 1_000);
    assert_eq!(ledger.balance(&Y), 1_000);
    assert_eq!(pallet.kitties(&a), Some(Kitty { dna: a, owner: X, price: Some(100) }));
    assert_eq!(pallet.kitties_owned(&X), vec![a]);
    assert_eq!(pallet.kitties_owned(&Y), Vec::<[u8; 32]>::new());
}

#[test]
fn purchase_at_a_higher_ceiling_pays_the_price_and_hands_the_kitty_over() {
    let mut pallet = Pallet::new();
    let mut ledger = Ledger::with(&[(X, 1_000), (Y, 1_000)]);
    let a = pallet.create_kitty(X, &context()).unwrap();
    assert_eq!(pallet.set_price(X, a, Some(100)), Ok(()));
    assert_eq!(pallet.buy_kitty(Y, a, 150), Ok(Payment { from: Y, to: X, amount: 100 }));
    assert_eq!(purchase(&mut pallet, &mut ledger, Y, a, 150), Ok(()));
    assert_eq!(ledger.transfers, 1);
    assert_eq!(ledger.balance(&X), 1_100);
    assert_eq!(ledger.balance(&Y), 900);
    assert_eq!(pallet.kitties(&a), Some(Kitty { dna: a, owner: Y, price: None }));
    assert_eq!(pallet.kitties_owned(&X), Vec::<[u8; 32]>::new());
    assert_eq!(pallet.kitties_owned(&Y), vec![a]);
    assert_eq!(
        pallet.events(),
        &vec![
            Event::Created { owner: X },
            Event::PriceSet { owner: X, kitty_id: a, new_price: Some(100) },
            Event::Transferred { from: X, to: Y, kitty_id: a },
            Event::Sold { buyer: Y, kitty_id: a, price: 100 },
        ]
    );
}

#[test]
fn mint_into_a_full_inventory_is_refused_and_changes_nothing() {
    let mut pallet = Pallet::new();
    for n in 0..MAX_KITTIES_OWNED {
        assert_eq!(pallet.mint(X, id(n)), Ok(()));
    }
    let owned = pallet.kitties_owned(&X);
    assert_eq!(owned.len(), MAX_KITTIES_OWNED as usize);
    let announced = pallet.events().len();
    let extra = id(MAX_KITTIES_OWNED);
    assert_eq!(pallet.mint(X, extra), Err(Error::TooManyOwned));
    assert_eq!(pallet.create_kitty(X, &context()), Err(Error::TooManyOwned));
    assert_eq!(pallet.kitty_count(), MAX_KITTIES_OWNED);
    assert_eq!(pallet.kitties(&extra), None);
    assert_eq!(pallet.kitties_owned(&X), owned);
    assert_eq!(pallet.events().len(), announced);
    assert_eq!(pallet.mint(Y, extra), Ok(()));
    assert_eq!(pallet.kitty_count(), MAX_KITTIES_OWNED + 1);
}

#[test]
fn purchase_that_the_ledger_refuses_changes_nothing() {
    let mut pallet = Pallet::new();
    let mut ledger = Ledger::with(&[(X, 0), (Y, 99)]);
    let a = pallet.create_kitty(X, &context()).unwrap();
    assert_eq!(pallet.set_price(X, a, Some(100)), Ok(()));
    assert_eq!(
        purchase(&mut pallet, &mut ledger, Y, a, 100),
        Err(Refusal::Ledger(String::from("funds do not suffice")))
    );
    assert_eq!(ledger.balance(&X), 0);
    assert_eq!(ledger.balance(&Y), 99);
    assert_eq!(pallet.kitties(&a), Some(Kitty { dna: a, owner: X, price: Some(100) }));
    assert_eq!(pallet.kitties_owned(&X), vec![a]);
}
