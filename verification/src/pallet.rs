//! The registry itself: the counter and the two tables, and the operations
//! that change them together.

use crate::dna::{dna_of, hash_payload};
use crate::kitties::Kitties;
use crate::kitties_owned::KittiesOwned;
use crate::lookup::same_bytes;
use crate::model::{
    lemma_bought_inv, lemma_empty_inv, lemma_minted_inv, lemma_priced_inv, lemma_transferred_inv,
    refused, State,
};
use crate::types::{
    AccountId, Balance, BlockContext, Error, Event, Kitty, Payment, MAX_KITTIES_OWNED,
};
use vstd::prelude::*;

verus! {

/// The registry of kitties.
pub struct Pallet {
    count: u32,
    kitties: Kitties,
    kitties_owned: KittiesOwned,
    events: Vec<Event>,
}

impl View for Pallet {
    type V = State;

    closed spec fn view(&self) -> State {
        State {
            count: self.count as nat,
            kitties: self.kitties@,
            owned: self.kitties_owned@,
            events: self.events@,
        }
    }
}

impl Pallet {
    /// The tables are sound and the registry's invariant holds.
    pub closed spec fn wf(&self) -> bool {
        &&& self.kitties.wf()
        &&& self.kitties_owned.wf()
        &&& self@.inv()
    }

    /// A registry that an operation left behind satisfies the invariant.
    pub proof fn lemma_inv(&self)
        requires
            self.wf(),
        ensures
            self@.inv(),
    {
    }

    /// The registry before anything was minted.
    pub fn new() -> (pallet: Self)
        ensures
            pallet.wf(),
            pallet@ == State::empty(),
    {
        let pallet = Pallet {
            count: 0,
            kitties: Kitties::new(),
            kitties_owned: KittiesOwned::new(),
            events: Vec::new(),
        };
        proof {
            lemma_empty_inv();
            assert(pallet@ =~= State::empty());
        }
        pallet
    }

    /// How many kitties were minted.
    pub fn kitty_count(&self) -> (count: u32)
        ensures
            count == self@.count,
    {
        self.count
    }

    /// The record of a kitty, if it exists.
    pub fn kitties(&self, kitty_id: &[u8; 32]) -> (record: Option<Kitty>)
        requires
            self.wf(),
        ensures
            match record {
                Some(kitty) => self@.kitties.contains_key(*kitty_id) && kitty
                    == self@.kitties[*kitty_id],
                None => !self@.kitties.contains_key(*kitty_id),
            },
    {
        self.kitties.get(kitty_id)
    }

    /// What an account owns, in the order of its inventory.
    pub fn kitties_owned(&self, who: &AccountId) -> (ids: Vec<[u8; 32]>)
        requires
            self.wf(),
        ensures
            ids@ == self@.owned[*who],
    {
        self.kitties_owned.get(who)
    }

    /// What was announced since the events were last taken, oldest first.
    pub fn events(&self) -> (events: &Vec<Event>)
        ensures
            events@ == self@.events,
    {
        &self.events
    }

    /// Hands out what was announced and starts a new record of events.
    pub fn take_events(&mut self) -> (events: Vec<Event>)
        requires
            old(self).wf(),
        ensures
            final(self).wf(),
            events@ == old(self)@.events,
            final(self)@ == (State { events: Seq::empty(), ..old(self)@ }),
    {
        let mut events: Vec<Event> = Vec::new();
        std::mem::swap(&mut self.events, &mut events);
        proof {
            assert(self@ =~= (State { events: Seq::empty(), ..old(self)@ }));
        }
        events
    }

    /// The identifier for the next kitty: the hash of the block's data and
    /// of the counter.
    pub fn gen_dna(&self, context: &BlockContext) -> (dna: [u8; 32])
        ensures
            dna == self.next_dna(*context),
    {
        hash_payload(
            context.parent_hash,
            context.block_number,
            context.extrinsic_index,
            self.count,
        )
    }

    /// Records a new kitty with the identifier `dna` for `owner`, without a
    /// price, and announces `Created`. It is refused, and nothing changes,
    /// where the identifier is taken (`DuplicateKitty`), the counter is at
    /// its maximum (`TooManyKitties`) or the owner's inventory is full
    /// (`TooManyOwned`), in this order.
    pub fn mint(&mut self, owner: AccountId, dna: [u8; 32]) -> (minted: Result<(), Error>)
        requires
            old(self).wf(),
        ensures
            final(self).wf(),
            minted == old(self)@.mint_outcome(owner, dna),
            minted is Ok ==> final(self)@ == old(self)@.minted(owner, dna),
            minted is Err ==> final(self)@ == old(self)@,
    {
        if self.kitties.contains_key(&dna) {
            return Err(Error::DuplicateKitty);
        }
        let new_count = match self.count.checked_add(1) {
            Some(n) => n,
            None => {
                return Err(Error::TooManyKitties);
            },
        };
        match self.kitties_owned.try_append(owner, dna) {
            Ok(_) => {},
            Err(e) => {
                return Err(e);
            },
        }
        self.kitties.insert(dna, Kitty { dna, owner, price: None });
        self.count = new_count;
        self.events.push(Event::Created { owner });
        proof {
            lemma_minted_inv(old(self)@, owner, dna);
            assert(self@ =~= old(self)@.minted(owner, dna));
        }
        Ok(())
    }

    /// Mints a kitty for `who` under the identifier that `gen_dna` gives for
    /// this block, and returns the identifier.
    pub fn create_kitty(
        &mut self,
        who: AccountId,
        context: &BlockContext,
    ) -> (created: Result<[u8; 32], Error>)
        requires
            old(self).wf(),
        ensures
            final(self).wf(),
            match created {
                Ok(dna) => dna == old(self).next_dna(*context) && old(self)@.mint_outcome(who, dna)
                    is Ok && final(self)@ == old(self)@.minted(who, dna),
                Err(e) => old(self)@.mint_outcome(who, old(self).next_dna(*context)) == refused(e)
                    && final(self)@ == old(self)@,
            },
    {
        let dna = self.gen_dna(context);
        match self.mint(who, dna) {
            Ok(_) => Ok(dna),
            Err(e) => Err(e),
        }
    }

    /// The identifier that `gen_dna` gives in this block: the one that
    /// belongs to the block's data and to the counter.
    pub open spec fn next_dna(&self, context: BlockContext) -> [u8; 32] {
        dna_of(
            context.parent_hash,
            context.block_number,
            context.extrinsic_index,
            self@.count as u32,
        )
    }

    /// Moves a kitty from `from` to `to` and announces `Transferred`. The
    /// kitty is appended to the inventory of `to`; in the inventory of `from`
    /// the last item takes its place. The price stays. It is refused, and
    /// nothing changes, where the two accounts are the same
    /// (`TransferToSelf`), the kitty does not exist (`NoKitty`), `from` does
    /// not own it (`NotOwner`) or the inventory of `to` is full
    /// (`TooManyOwned`), in this order. Nothing else can go wrong: the
    /// inventory of its owner always holds the kitty.
    pub fn do_transfer(
        &mut self,
        from: AccountId,
        to: AccountId,
        kitty_id: [u8; 32],
    ) -> (moved: Result<(), Error>)
        requires
            old(self).wf(),
        ensures
            final(self).wf(),
            moved == old(self)@.transfer_outcome(from, to, kitty_id),
            moved is Ok ==> final(self)@ == old(self)@.transferred(from, to, kitty_id),
            moved is Err ==> final(self)@ == old(self)@,
    {
        if same_bytes(&from, &to) {
            return Err(Error::TransferToSelf);
        }
        let kitty = match self.kitties.get(&kitty_id) {
            Some(kitty) => kitty,
            None => {
                return Err(Error::NoKitty);
            },
        };
        if !same_bytes(&kitty.owner, &from) {
            return Err(Error::NotOwner);
        }
        match self.kitties_owned.try_append(to, kitty_id) {
            Ok(_) => {},
            Err(e) => {
                return Err(e);
            },
        }
        // The inventory of `from` holds the kitty, so this cannot fail.
        match self.kitties_owned.remove(&from, &kitty_id) {
            Ok(_) => {},
            Err(e) => {
                return Err(e);
            },
        }
        self.kitties.insert(kitty_id, Kitty { dna: kitty.dna, owner: to, price: kitty.price });
        self.events.push(Event::Transferred { from, to, kitty_id });
        proof {
            lemma_transferred_inv(old(self)@, from, to, kitty_id);
            assert(self@ =~= old(self)@.transferred(from, to, kitty_id));
        }
        Ok(())
    }

    /// The entry for a transfer that the caller `who` asks for.
    pub fn transfer(
        &mut self,
        who: AccountId,
        to: AccountId,
        kitty_id: [u8; 32],
    ) -> (moved: Result<(), Error>)
        requires
            old(self).wf(),
        ensures
            final(self).wf(),
            moved == old(self)@.transfer_outcome(who, to, kitty_id),
            moved is Ok ==> final(self)@ == old(self)@.transferred(who, to, kitty_id),
            moved is Err ==> final(self)@ == old(self)@,
    {
        self.do_transfer(who, to, kitty_id)
    }

    /// Gives the kitty the price `new_price`, or none, and announces
    /// `PriceSet`. It is refused, and nothing changes, where the kitty does
    /// not exist (`NoKitty`) or `caller` does not own it (`NotOwner`).
    pub fn do_set_price(
        &mut self,
        caller: AccountId,
        kitty_id: [u8; 32],
        new_price: Option<Balance>,
    ) -> (set: Result<(), Error>)
        requires
            old(self).wf(),
        ensures
            final(self).wf(),
            set == old(self)@.set_price_outcome(caller, kitty_id),
            set is Ok ==> final(self)@ == old(self)@.priced(caller, kitty_id, new_price),
            set is Err ==> final(self)@ == old(self)@,
    {
        let kitty = match self.kitties.get(&kitty_id) {
            Some(kitty) => kitty,
            None => {
                return Err(Error::NoKitty);
            },
        };
        if !same_bytes(&kitty.owner, &caller) {
            return Err(Error::NotOwner);
        }
        self.kitties.insert(
            kitty_id,
            Kitty { dna: kitty.dna, owner: kitty.owner, price: new_price },
        );
        self.events.push(Event::PriceSet { owner: caller, kitty_id, new_price });
        proof {
            lemma_priced_inv(old(self)@, caller, kitty_id, new_price);
            assert(self@ =~= old(self)@.priced(caller, kitty_id, new_price));
        }
        Ok(())
    }

    /// The entry for a price that the caller `who` sets.
    pub fn set_price(
        &mut self,
        who: AccountId,
        kitty_id: [u8; 32],
        new_price: Option<Balance>,
    ) -> (set: Result<(), Error>)
        requires
            old(self).wf(),
        ensures
            final(self).wf(),
            set == old(self)@.set_price_outcome(who, kitty_id),
            set is Ok ==> final(self)@ == old(self)@.priced(who, kitty_id, new_price),
            set is Err ==> final(self)@ == old(self)@,
    {
        self.do_set_price(who, kitty_id, new_price)
    }

    /// Opens a purchase: says what `who` has to pay, and to whom, for the
    /// kitty to change hands, or why the purchase cannot take place. The
    /// amount is the kitty's price, whatever the ceiling `max_price`.
    /// Nothing changes; once the ledger has made the payment,
    /// `do_buy_kitty` hands the kitty over, and succeeds on a registry that
    /// is as it was here.
    pub fn buy_kitty(
        &self,
        who: AccountId,
        kitty_id: [u8; 32],
        max_price: Balance,
    ) -> (due: Result<Payment, Error>)
        requires
            self.wf(),
        ensures
            match due {
                Ok(payment) => self@.buy_outcome(who, kitty_id, max_price) is Ok && payment
                    == self@.payment(who, kitty_id),
                Err(e) => self@.buy_outcome(who, kitty_id, max_price) == refused(e),
            },
    {
        let kitty = match self.kitties.get(&kitty_id) {
            Some(kitty) => kitty,
            None => {
                return Err(Error::NoKitty);
            },
        };
        let real_price = match kitty.price {
            Some(real_price) => real_price,
            None => {
                return Err(Error::NotForSale);
            },
        };
        if max_price < real_price {
            return Err(Error::MaxPriceTooLow);
        }
        if same_bytes(&kitty.owner, &who) {
            return Err(Error::TransferToSelf);
        }
        if self.kitties_owned.count(&who) >= MAX_KITTIES_OWNED as usize {
            return Err(Error::TooManyOwned);
        }
        Ok(Payment { from: who, to: kitty.owner, amount: real_price })
    }

    /// Hands a kitty that is for sale over to `buyer`, whose ceiling is
    /// `price`: the kitty is transferred from its owner, loses its price,
    /// and `Transferred` and `Sold` are announced. It is refused, and
    /// nothing changes, where the kitty does not exist (`NoKitty`), has no
    /// price (`NotForSale`), costs more than the ceiling (`MaxPriceTooLow`)
    /// or cannot be transferred to `buyer`.
    pub fn do_buy_kitty(
        &mut self,
        buyer: AccountId,
        kitty_id: [u8; 32],
        price: Balance,
    ) -> (sold: Result<(), Error>)
        requires
            old(self).wf(),
        ensures
            final(self).wf(),
            sold == old(self)@.buy_outcome(buyer, kitty_id, price),
            sold is Ok ==> final(self)@ == old(self)@.bought(buyer, kitty_id),
            sold is Err ==> final(self)@ == old(self)@,
    {
        let kitty = match self.kitties.get(&kitty_id) {
            Some(kitty) => kitty,
            None => {
                return Err(Error::NoKitty);
            },
        };
        let real_price = match kitty.price {
            Some(real_price) => real_price,
            None => {
                return Err(Error::NotForSale);
            },
        };
        if price < real_price {
            return Err(Error::MaxPriceTooLow);
        }
        match self.do_transfer(kitty.owner, buyer, kitty_id) {
            Ok(_) => {},
            Err(e) => {
                return Err(e);
            },
        }
        self.kitties.insert(kitty_id, Kitty { dna: kitty.dna, owner: buyer, price: None });
        self.events.push(Event::Sold { buyer, kitty_id, price: real_price });
        proof {
            lemma_bought_inv(old(self)@, buyer, kitty_id, price);
            assert(self@ =~= old(self)@.bought(buyer, kitty_id));
        }
        Ok(())
    }
}

} // verus!
