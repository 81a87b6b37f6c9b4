//! The registry as a mathematical value: its state, the invariant that every
//! operation keeps, and what each operation answers and leaves behind.

use crate::kitties_owned::{lemma_without, nothing_owned, without};
use crate::types::{AccountId, Balance, Error, Event, Kitty, Payment, MAX_KITTIES_OWNED};
use vstd::prelude::*;

verus! {

/// All that the registry holds.
#[verifier::ext_equal]
pub struct State {
    /// How many kitties were minted.
    pub count: nat,
    /// The record of each kitty, by its identifier.
    pub kitties: Map<[u8; 32], Kitty>,
    /// The inventory of every account; empty for one that owns nothing.
    pub owned: Map<AccountId, Seq<[u8; 32]>>,
    /// What was announced, oldest first.
    pub events: Seq<Event>,
}

/// A request to the registry.
pub enum Call {
    Mint { owner: AccountId, dna: [u8; 32] },
    Transfer { from: AccountId, to: AccountId, kitty_id: [u8; 32] },
    SetPrice { caller: AccountId, kitty_id: [u8; 32], new_price: Option<Balance> },
    Buy { buyer: AccountId, kitty_id: [u8; 32], max_price: Balance },
}

/// The answer that refuses a request with `error`.
pub open spec fn refused(error: Error) -> Result<(), Error> {
    Err(error)
}

impl State {
    /// The registry before anything was minted.
    pub open spec fn empty() -> State {
        State {
            count: 0,
            kitties: Map::empty(),
            owned: nothing_owned(),
            events: Seq::empty(),
        }
    }

    /// The counter tells how many kitties the table holds, and fits in 32
    /// bits.
    pub open spec fn counted(self) -> bool {
        self.kitties.dom().finite() && self.count == self.kitties.dom().len() && self.count
            <= u32::MAX
    }

    /// Each kitty is recorded under its own identifier, and its owner's
    /// inventory holds it.
    pub open spec fn owners_hold(self) -> bool {
        forall|id: [u8; 32]| #[trigger]
            self.kitties.contains_key(id) ==> self.kitties[id].dna == id
                && self.owned[self.kitties[id].owner].contains(id)
    }

    /// Whatever stands in an inventory is a kitty of that account.
    pub open spec fn held_are_owned(self) -> bool {
        forall|who: AccountId, i: int|
            0 <= i < self.owned[who].len() ==> self.kitties.contains_key(
                #[trigger] self.owned[who][i],
            ) && self.kitties[self.owned[who][i]].owner == who
    }

    /// Every account has an inventory, be it empty.
    pub open spec fn total(self) -> bool {
        forall|who: AccountId| #[trigger] self.owned.contains_key(who)
    }

    /// In no inventory anything stands twice, and none is longer than the
    /// bound.
    pub open spec fn inventories_bounded(self) -> bool {
        forall|who: AccountId|
            (#[trigger] self.owned[who]).no_duplicates() && self.owned[who].len()
                <= MAX_KITTIES_OWNED
    }

    /// What holds of the registry after every operation.
    pub open spec fn inv(self) -> bool {
        &&& self.counted()
        &&& self.total()
        &&& self.owners_hold()
        &&& self.held_are_owned()
        &&& self.inventories_bounded()
    }

    /// What `mint` answers.
    pub open spec fn mint_outcome(self, owner: AccountId, dna: [u8; 32]) -> Result<(), Error> {
        if self.kitties.contains_key(dna) {
            Err(Error::DuplicateKitty)
        } else if self.count >= u32::MAX {
            Err(Error::TooManyKitties)
        } else if self.owned[owner].len() >= MAX_KITTIES_OWNED {
            Err(Error::TooManyOwned)
        } else {
            Ok(())
        }
    }

    /// The registry after `owner` was given the new kitty `dna`.
    pub open spec fn minted(self, owner: AccountId, dna: [u8; 32]) -> State {
        State {
            count: self.count + 1,
            kitties: self.kitties.insert(dna, Kitty { dna, owner, price: None }),
            owned: self.owned.insert(owner, self.owned[owner].push(dna)),
            events: self.events.push(Event::Created { owner }),
        }
    }

    /// What `do_transfer` answers. Where the invariant holds, the inventory
    /// of the owner holds the kitty, so nothing else can go wrong.
    pub open spec fn transfer_outcome(
        self,
        from: AccountId,
        to: AccountId,
        kitty_id: [u8; 32],
    ) -> Result<(), Error> {
        if from == to {
            Err(Error::TransferToSelf)
        } else if !self.kitties.contains_key(kitty_id) {
            Err(Error::NoKitty)
        } else if self.kitties[kitty_id].owner != from {
            Err(Error::NotOwner)
        } else if self.owned[to].len() >= MAX_KITTIES_OWNED {
            Err(Error::TooManyOwned)
        } else {
            Ok(())
        }
    }

    /// The registry after the kitty went from `from` to `to`: it stands last
    /// in the inventory of `to`, and in that of `from` the last item has
    /// taken its place. Its price is as before.
    pub open spec fn transferred(
        self,
        from: AccountId,
        to: AccountId,
        kitty_id: [u8; 32],
    ) -> State {
        let kitty = self.kitties[kitty_id];
        State {
            count: self.count,
            kitties: self.kitties.insert(
                kitty_id,
                Kitty { dna: kitty.dna, owner: to, price: kitty.price },
            ),
            owned: self.owned.insert(to, self.owned[to].push(kitty_id)).insert(
                from,
                without(self.owned[from], kitty_id),
            ),
            events: self.events.push(Event::Transferred { from, to, kitty_id }),
        }
    }

    /// What `do_set_price` answers.
    pub open spec fn set_price_outcome(
        self,
        caller: AccountId,
        kitty_id: [u8; 32],
    ) -> Result<(), Error> {
        if !self.kitties.contains_key(kitty_id) {
            Err(Error::NoKitty)
        } else if self.kitties[kitty_id].owner != caller {
            Err(Error::NotOwner)
        } else {
            Ok(())
        }
    }

    /// The registry after the owner gave the kitty a price, or took it away.
    pub open spec fn priced(
        self,
        caller: AccountId,
        kitty_id: [u8; 32],
        new_price: Option<Balance>,
    ) -> State {
        let kitty = self.kitties[kitty_id];
        State {
            count: self.count,
            kitties: self.kitties.insert(
                kitty_id,
                Kitty { dna: kitty.dna, owner: kitty.owner, price: new_price },
            ),
            owned: self.owned,
            events: self.events.push(Event::PriceSet { owner: caller, kitty_id, new_price }),
        }
    }

    /// What a purchase answers: the kitty has to exist and to have a price
    /// that the buyer's ceiling covers, and the transfer from its owner to
    /// the buyer has to be possible.
    pub open spec fn buy_outcome(
        self,
        buyer: AccountId,
        kitty_id: [u8; 32],
        max_price: Balance,
    ) -> Result<(), Error> {
        if !self.kitties.contains_key(kitty_id) {
            Err(Error::NoKitty)
        } else if self.kitties[kitty_id].price is None {
            Err(Error::NotForSale)
        } else if max_price < self.kitties[kitty_id].price->Some_0 {
            Err(Error::MaxPriceTooLow)
        } else {
            self.transfer_outcome(self.kitties[kitty_id].owner, buyer, kitty_id)
        }
    }

    /// What the buyer owes for the kitty: its price, to its owner.
    pub open spec fn payment(self, buyer: AccountId, kitty_id: [u8; 32]) -> Payment {
        Payment {
            from: buyer,
            to: self.kitties[kitty_id].owner,
            amount: self.kitties[kitty_id].price->Some_0,
        }
    }

    /// The registry after the kitty was sold to `buyer`: transferred from its
    /// owner, and without a price.
    pub open spec fn bought(self, buyer: AccountId, kitty_id: [u8; 32]) -> State {
        let kitty = self.kitties[kitty_id];
        let moved = self.transferred(kitty.owner, buyer, kitty_id);
        State {
            count: moved.count,
            kitties: moved.kitties.insert(
                kitty_id,
                Kitty { dna: kitty.dna, owner: buyer, price: None },
            ),
            owned: moved.owned,
            events: moved.events.push(
                Event::Sold { buyer, kitty_id, price: kitty.price->Some_0 },
            ),
        }
    }

    /// What the registry answers to a request.
    pub open spec fn outcome(self, call: Call) -> Result<(), Error> {
        match call {
            Call::Mint { owner, dna } => self.mint_outcome(owner, dna),
            Call::Transfer { from, to, kitty_id } => self.transfer_outcome(from, to, kitty_id),
            Call::SetPrice { caller, kitty_id, new_price } => self.set_price_outcome(
                caller,
                kitty_id,
            ),
            Call::Buy { buyer, kitty_id, max_price } => self.buy_outcome(
                buyer,
                kitty_id,
                max_price,
            ),
        }
    }

    /// The registry after a request: changed where the request was granted,
    /// as it was where the request was refused.
    pub open spec fn after(self, call: Call) -> State {
        if self.outcome(call) is Err {
            self
        } else {
            match call {
                Call::Mint { owner, dna } => self.minted(owner, dna),
                Call::Transfer { from, to, kitty_id } => self.transferred(from, to, kitty_id),
                Call::SetPrice { caller, kitty_id, new_price } => self.priced(
                    caller,
                    kitty_id,
                    new_price,
                ),
                Call::Buy { buyer, kitty_id, max_price } => self.bought(buyer, kitty_id),
            }
        }
    }

    /// The registry after a run of requests, one after the other.
    pub open spec fn after_all(self, calls: Seq<Call>) -> State
        decreases calls.len(),
    {
        if calls.len() == 0 {
            self
        } else {
            self.after_all(calls.drop_last()).after(calls.last())
        }
    }
}

/// The invariant holds before anything was minted.
pub proof fn lemma_empty_inv()
    ensures
        State::empty().inv(),
{
    let s = State::empty();
    assert(s.kitties.dom() =~= Set::<[u8; 32]>::empty());
}

/// Minting keeps the invariant.
pub proof fn lemma_minted_inv(s: State, owner: AccountId, dna: [u8; 32])
    requires
        s.inv(),
        s.mint_outcome(owner, dna) is Ok,
    ensures
        s.minted(owner, dna).inv(),
{
    let t = s.minted(owner, dna);
    assert(t.kitties.dom() =~= s.kitties.dom().insert(dna));
    assert(!s.owned[owner].contains(dna)) by {
        if s.owned[owner].contains(dna) {
            let i = s.owned[owner].index_of(dna);
            assert(s.kitties.contains_key(s.owned[owner][i]));
        }
    }
    assert forall|id: [u8; 32]| #[trigger] t.kitties.contains_key(id) implies t.kitties[id].dna
        == id && t.owned[t.kitties[id].owner].contains(id) by {
        if id == dna {
            assert(t.owned[owner][s.owned[owner].len() as int] == dna);
        } else {
            assert(s.kitties.contains_key(id));
            let who = s.kitties[id].owner;
            let i = s.owned[who].index_of(id);
            if who == owner {
                assert(t.owned[who][i] == id);
            }
        }
    }
    assert forall|who: AccountId, i: int|
        0 <= i < t.owned[who].len() implies t.kitties.contains_key(#[trigger] t.owned[who][i])
        && t.kitties[t.owned[who][i]].owner == who by {
        if who == owner && i == s.owned[owner].len() {
        } else {
            assert(t.owned[who][i] == s.owned[who][i]);
            assert(s.kitties.contains_key(s.owned[who][i]));
        }
    }
    assert forall|who: AccountId|
        (#[trigger] t.owned[who]).no_duplicates() && t.owned[who].len()
            <= MAX_KITTIES_OWNED by {
        assert(s.owned[who].no_duplicates());
    }
}

/// A transfer keeps the invariant.
pub proof fn lemma_transferred_inv(s: State, from: AccountId, to: AccountId, kitty_id: [u8; 32])
    requires
        s.inv(),
        s.transfer_outcome(from, to, kitty_id) is Ok,
    ensures
        s.transferred(from, to, kitty_id).inv(),
{
    let t = s.transferred(from, to, kitty_id);
    assert(s.kitties.contains_key(kitty_id));
    assert(t.kitties.dom() =~= s.kitties.dom());
    assert(s.owned.contains_key(from) && s.owned[from].no_duplicates());
    assert(s.owned.contains_key(to) && s.owned[to].no_duplicates());
    assert(t.total()) by {
        assert forall|who: AccountId| #[trigger] t.owned.contains_key(who) by {
            assert(s.owned.contains_key(who));
        }
    }
    lemma_without(s.owned[from], kitty_id);
    assert(!s.owned[to].contains(kitty_id)) by {
        if s.owned[to].contains(kitty_id) {
            let i = s.owned[to].index_of(kitty_id);
            assert(s.kitties[s.owned[to][i]].owner == to);
        }
    }
    assert(t.owned[to] == s.owned[to].push(kitty_id));
    assert(t.owned[from] == without(s.owned[from], kitty_id));
    assert forall|id: [u8; 32]| #[trigger] t.kitties.contains_key(id) implies t.kitties[id].dna
        == id && t.owned[t.kitties[id].owner].contains(id) by {
        assert(s.kitties.contains_key(id));
        if id == kitty_id {
            assert(t.owned[to][s.owned[to].len() as int] == kitty_id);
        } else {
            let who = s.kitties[id].owner;
            let i = s.owned[who].index_of(id);
            if who == to {
                assert(t.owned[who][i] == id);
            } else if who == from {
                assert(without(s.owned[from], kitty_id).contains(id));
            }
        }
    }
    assert forall|who: AccountId, i: int|
        0 <= i < t.owned[who].len() implies t.kitties.contains_key(#[trigger] t.owned[who][i])
        && t.kitties[t.owned[who][i]].owner == who by {
        let held = t.owned[who][i];
        if who == to {
            if i < s.owned[to].len() {
                assert(held == s.owned[to][i]);
                assert(s.kitties.contains_key(s.owned[to][i]));
            }
        } else if who == from {
            assert(t.owned[who].contains(held));
            assert(s.owned[from].contains(held) && held != kitty_id);
            let j = s.owned[from].index_of(held);
            assert(s.kitties.contains_key(s.owned[from][j]));
        } else {
            assert(held == s.owned[who][i]);
            assert(s.kitties.contains_key(s.owned[who][i]));
        }
    }
    assert forall|who: AccountId|
        (#[trigger] t.owned[who]).no_duplicates() && t.owned[who].len()
            <= MAX_KITTIES_OWNED by {
        assert(s.owned[who].no_duplicates());
    }
}

/// Setting a price keeps the invariant.
pub proof fn lemma_priced_inv(
    s: State,
    caller: AccountId,
    kitty_id: [u8; 32],
    new_price: Option<Balance>,
)
    requires
        s.inv(),
        s.set_price_outcome(caller, kitty_id) is Ok,
    ensures
        s.priced(caller, kitty_id, new_price).inv(),
{
    let t = s.priced(caller, kitty_id, new_price);
    assert(s.kitties.contains_key(kitty_id));
    assert(t.kitties.dom() =~= s.kitties.dom());
    assert forall|id: [u8; 32]| #[trigger] t.kitties.contains_key(id) implies t.kitties[id].dna
        == id && t.owned[t.kitties[id].owner].contains(id) by {
        assert(s.kitties.contains_key(id));
    }
    assert forall|who: AccountId, i: int|
        0 <= i < t.owned[who].len() implies t.kitties.contains_key(#[trigger] t.owned[who][i])
        && t.kitties[t.owned[who][i]].owner == who by {
        assert(s.kitties.contains_key(s.owned[who][i]));
    }
}

/// A sale keeps the invariant.
pub proof fn lemma_bought_inv(s: State, buyer: AccountId, kitty_id: [u8; 32], max_price: Balance)
    requires
        s.inv(),
        s.buy_outcome(buyer, kitty_id, max_price) is Ok,
    ensures
        s.bought(buyer, kitty_id).inv(),
{
    let owner = s.kitties[kitty_id].owner;
    let moved = s.transferred(owner, buyer, kitty_id);
    lemma_transferred_inv(s, owner, buyer, kitty_id);
    assert(moved.kitties.contains_key(kitty_id));
    assert(moved.set_price_outcome(buyer, kitty_id) is Ok);
    lemma_priced_inv(moved, buyer, kitty_id, None);
    let t = s.bought(buyer, kitty_id);
    let u = moved.priced(buyer, kitty_id, None);
    assert(t.kitties =~= u.kitties);
    assert(t.counted());
    assert(t.owners_hold()) by {
        assert forall|id: [u8; 32]| #[trigger] t.kitties.contains_key(id) implies t.kitties[id].dna
            == id && t.owned[t.kitties[id].owner].contains(id) by {
            assert(u.kitties.contains_key(id));
        }
    }
    assert(t.held_are_owned()) by {
        assert forall|who: AccountId, i: int|
            0 <= i < t.owned[who].len() implies t.kitties.contains_key(
            #[trigger] t.owned[who][i],
        ) && t.kitties[t.owned[who][i]].owner == who by {
            assert(u.kitties.contains_key(u.owned[who][i]));
        }
    }
    assert(t.inventories_bounded()) by {
        assert forall|who: AccountId|
            (#[trigger] t.owned[who]).no_duplicates() && t.owned[who].len()
                <= MAX_KITTIES_OWNED by {
            assert(u.owned[who].no_duplicates());
        }
    }
}

/// Whatever is asked of the registry, and whether it is granted or refused,
/// the invariant holds afterwards.
pub proof fn lemma_after_inv(s: State, call: Call)
    requires
        s.inv(),
    ensures
        s.after(call).inv(),
{
    if s.outcome(call) is Ok {
        match call {
            Call::Mint { owner, dna } => lemma_minted_inv(s, owner, dna),
            Call::Transfer { from, to, kitty_id } => lemma_transferred_inv(s, from, to, kitty_id),
            Call::SetPrice { caller, kitty_id, new_price } => lemma_priced_inv(
                s,
                caller,
                kitty_id,
                new_price,
            ),
            Call::Buy { buyer, kitty_id, max_price } => lemma_bought_inv(
                s,
                buyer,
                kitty_id,
                max_price,
            ),
        }
    }
}

/// The invariant holds in every state that a run of requests reaches from a
/// state in which it holds.
pub proof fn lemma_after_all_inv(s: State, calls: Seq<Call>)
    requires
        s.inv(),
    ensures
        s.after_all(calls).inv(),
    decreases calls.len(),
{
    if calls.len() > 0 {
        lemma_after_all_inv(s, calls.drop_last());
        lemma_after_inv(s.after_all(calls.drop_last()), calls.last());
    }
}

/// The invariant holds in every state that a run of requests reaches from
/// the empty registry.
pub proof fn lemma_reachable_inv(calls: Seq<Call>)
    ensures
        State::empty().after_all(calls).inv(),
{
    lemma_empty_inv();
    lemma_after_all_inv(State::empty(), calls);
}

/// Where the invariant holds, a kitty stands in the inventory of its owner,
/// at one position only, and in no other inventory.
pub proof fn lemma_one_owner_one_place(s: State, kitty_id: [u8; 32], who: AccountId)
    requires
        s.inv(),
        s.kitties.contains_key(kitty_id),
    ensures
        s.owned[who].contains(kitty_id) <==> s.kitties[kitty_id].owner == who,
        forall|i: int, j: int|
            0 <= i < s.owned[who].len() && 0 <= j < s.owned[who].len() && s.owned[who][i]
                == kitty_id && s.owned[who][j] == kitty_id ==> i == j,
{
    if s.owned[who].contains(kitty_id) {
        let i = s.owned[who].index_of(kitty_id);
        assert(s.kitties[s.owned[who][i]].owner == who);
    }
    assert(s.owned.contains_key(who) && s.owned[who].no_duplicates());
}

/// No request takes a kitty out of the table: an identifier that was given
/// stays given.
pub proof fn lemma_identifiers_stay(s: State, call: Call, kitty_id: [u8; 32])
    requires
        s.kitties.contains_key(kitty_id),
    ensures
        s.after(call).kitties.contains_key(kitty_id),
{
}

/// The same over a run of requests: what the table holds after the first
/// `k` of them, it still holds after the first `n`.
pub proof fn lemma_identifiers_stay_all(
    s: State,
    calls: Seq<Call>,
    k: int,
    n: int,
    kitty_id: [u8; 32],
)
    requires
        0 <= k <= n <= calls.len(),
        s.after_all(calls.take(k)).kitties.contains_key(kitty_id),
    ensures
        s.after_all(calls.take(n)).kitties.contains_key(kitty_id),
    decreases n - k,
{
    if k < n {
        lemma_identifiers_stay_all(s, calls, k, n - 1, kitty_id);
        assert(calls.take(n).drop_last() =~= calls.take(n - 1));
        lemma_identifiers_stay(s.after_all(calls.take(n - 1)), calls[n - 1], kitty_id);
    }
}

/// Two mints that are granted in one run of requests give different
/// identifiers, whatever was asked before, between and after them.
pub proof fn lemma_mints_distinct(s: State, calls: Seq<Call>, i: int, j: int)
    requires
        0 <= i < j < calls.len(),
        calls[i] is Mint,
        calls[j] is Mint,
        s.after_all(calls.take(i)).outcome(calls[i]) is Ok,
        s.after_all(calls.take(j)).outcome(calls[j]) is Ok,
    ensures
        calls[i]->dna != calls[j]->dna,
{
    let first = calls[i]->dna;
    assert(calls.take(i + 1).drop_last() =~= calls.take(i));
    assert(s.after_all(calls.take(i + 1)).kitties.contains_key(first));
    lemma_identifiers_stay_all(s, calls, i + 1, j, first);
}

/// A full inventory takes no new kitty. The mint is
/// refused, with `TooManyOwned` unless the identifier is taken or the counter
/// is exhausted, and the registry stays as it was.
pub proof fn lemma_full_inventory_refuses_mint(s: State, owner: AccountId, dna: [u8; 32])
    requires
        s.owned[owner].len() >= MAX_KITTIES_OWNED,
    ensures
        s.mint_outcome(owner, dna) is Err,
        !s.kitties.contains_key(dna) && s.count < u32::MAX ==> s.mint_outcome(owner, dna)
            == refused(Error::TooManyOwned),
        s.after((Call::Mint { owner, dna })) == s,
{
}

/// A full inventory takes no kitty from another
/// account. The transfer is refused, with `TooManyOwned` where `from` owns
/// the kitty and is not `to`, and the registry stays as it was: the kitty's
/// record and both inventories.
pub proof fn lemma_full_inventory_refuses_transfer(
    s: State,
    from: AccountId,
    to: AccountId,
    kitty_id: [u8; 32],
)
    requires
        s.owned[to].len() >= MAX_KITTIES_OWNED,
    ensures
        s.transfer_outcome(from, to, kitty_id) is Err,
        from != to && s.kitties.contains_key(kitty_id) && s.kitties[kitty_id].owner == from
            ==> s.transfer_outcome(from, to, kitty_id) == refused(Error::TooManyOwned),
        s.after((Call::Transfer { from, to, kitty_id })) == s,
{
}

/// A kitty whose price was taken away is not for sale: whoever asks to buy
/// it, at whatever ceiling, is answered `NotForSale`.
pub proof fn lemma_delisted_not_for_sale(
    s: State,
    caller: AccountId,
    kitty_id: [u8; 32],
    buyer: AccountId,
    max_price: Balance,
)
    requires
        s.set_price_outcome(caller, kitty_id) is Ok,
    ensures
        s.priced(caller, kitty_id, None).buy_outcome(buyer, kitty_id, max_price) == refused(
            Error::NotForSale,
        ),
{
}

/// A purchase is granted only where the buyer's ceiling covers
/// the price, and what the buyer then owes is the price, to the owner, not
/// the ceiling.
pub proof fn lemma_buy_ceiling(s: State, buyer: AccountId, kitty_id: [u8; 32], max_price: Balance)
    requires
        s.buy_outcome(buyer, kitty_id, max_price) is Ok,
    ensures
        s.kitties.contains_key(kitty_id),
        s.kitties[kitty_id].price == Some(s.payment(buyer, kitty_id).amount),
        s.payment(buyer, kitty_id).amount <= max_price,
        s.payment(buyer, kitty_id).from == buyer,
        s.payment(buyer, kitty_id).to == s.kitties[kitty_id].owner,
{
}

/// A sale leaves the kitty with the buyer and without a price, so that it
/// cannot be bought again before its new owner names one.
pub proof fn lemma_sold_once(s: State, buyer: AccountId, kitty_id: [u8; 32], max_price: Balance)
    requires
        s.buy_outcome(buyer, kitty_id, max_price) is Ok,
    ensures
        s.bought(buyer, kitty_id).kitties[kitty_id] == (Kitty {
            dna: s.kitties[kitty_id].dna,
            owner: buyer,
            price: None,
        }),
        forall|other: AccountId, ceiling: Balance|
            s.bought(buyer, kitty_id).buy_outcome(other, kitty_id, ceiling) == refused(
                Error::NotForSale,
            ),
{
}

} // verus!
