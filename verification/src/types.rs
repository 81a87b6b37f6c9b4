//! The plain values that the registry stores, emits and rejects with.

use vstd::prelude::*;

verus! {

/// An account, as the dispatch layer names it.
pub type AccountId = [u8; 32];

/// An amount of the native currency.
pub type Balance = u128;

/// Largest number of kitties one account may own.
pub const MAX_KITTIES_OWNED: u32 = 100;

/// One collectible. `dna` is both its identifier and its fingerprint and never
/// changes; `price` is `None` while the kitty is not for sale.
#[derive(Clone, Copy, Debug, PartialEq, Eq)]
pub struct Kitty {
    pub dna: [u8; 32],
    pub owner: AccountId,
    pub price: Option<Balance>,
}

/// What a successful operation announces.
#[derive(Clone, Copy, Debug, PartialEq, Eq)]
pub enum Event {
    Created { owner: AccountId },
    Transferred { from: AccountId, to: AccountId, kitty_id: [u8; 32] },
    PriceSet { owner: AccountId, kitty_id: [u8; 32], new_price: Option<Balance> },
    Sold { buyer: AccountId, kitty_id: [u8; 32], price: Balance },
}

/// Why an operation was refused.
#[derive(Clone, Copy, Debug, PartialEq, Eq)]
pub enum Error {
    /// The counter of kitties is at its numeric maximum.
    TooManyKitties,
    /// A kitty with this identifier exists already.
    DuplicateKitty,
    /// The receiving account already owns `MAX_KITTIES_OWNED` kitties.
    TooManyOwned,
    /// Source and destination of a transfer are the same account.
    TransferToSelf,
    /// No kitty has this identifier.
    NoKitty,
    /// The caller is not the kitty's owner.
    NotOwner,
    /// The kitty has no price.
    NotForSale,
    /// The buyer's ceiling is below the asking price.
    MaxPriceTooLow,
}

/// The block data that enters a new identifier.
#[derive(Clone, Copy, Debug, PartialEq, Eq)]
pub struct BlockContext {
    pub parent_hash: [u8; 32],
    pub block_number: u32,
    pub extrinsic_index: Option<u32>,
}

/// A movement of funds that the ledger is asked to make.
#[derive(Clone, Copy, Debug, PartialEq, Eq)]
pub struct Payment {
    pub from: AccountId,
    pub to: AccountId,
    pub amount: Balance,
}

} // verus!
