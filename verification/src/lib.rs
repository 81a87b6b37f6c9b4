//! A registry of uniquely identified collectibles ("kitties"): minting,
//! bounded inventories per owner, transfers, price setting and sales.
//!
//! [`Pallet`] holds the counter of kitties, the table of their records and
//! the inventory of each account, and changes the three together. What it
//! does is stated over [`model::State`], the registry as a mathematical
//! value, whose invariant every operation keeps.

pub mod bounded;
pub mod dna;
pub mod kitties;
pub mod kitties_owned;
pub mod lookup;
pub mod model;
pub mod pallet;
pub mod types;

pub use pallet::Pallet;
pub use types::{AccountId, Balance, BlockContext, Error, Event, Kitty, Payment, MAX_KITTIES_OWNED};
