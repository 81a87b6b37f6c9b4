//! The bounded list that holds one account's inventory, and what the registry
//! relies on of it without proof.

use crate::types::MAX_KITTIES_OWNED;
use vstd::prelude::*;

verus! {

/// `BoundedVec` of `frame_support`: a vector whose type names the largest
/// length it may have. Its values are opaque here.
#[verifier::external_type_specification]
#[verifier::external_body]
#[verifier::reject_recursive_types(T)]
#[verifier::reject_recursive_types(S)]
pub struct ExBoundedVec<T, S>(frame_support::BoundedVec<T, S>);

/// `ConstU32` of `frame_support`: a type that stands for one number, here
/// the bound of a `BoundedVec`.
#[verifier::external_type_specification]
#[verifier::external_body]
pub struct ExConstU32<const N: u32>(frame_support::traits::ConstU32<N>);

/// The inventory of one account: at most `MAX_KITTIES_OWNED` identifiers.
pub type OwnedKitties =
    frame_support::BoundedVec<[u8; 32], frame_support::traits::ConstU32<MAX_KITTIES_OWNED>>;

/// The identifiers that a list holds, first to last.
pub uninterp spec fn owned_ids(
    list: frame_support::BoundedVec<[u8; 32], frame_support::traits::ConstU32<MAX_KITTIES_OWNED>>,
) -> Seq<[u8; 32]>;

/// `BoundedVec::new`: the list that it makes holds nothing.
#[verifier::external_body]
pub(crate) fn owned_new() -> (list: OwnedKitties)
    ensures
        owned_ids(list) == Seq::<[u8; 32]>::empty(),
{
    frame_support::BoundedVec::new()
}

/// `Vec::len`, which a `BoundedVec` offers of the vector inside it: the
/// number of identifiers held.
#[verifier::external_body]
pub(crate) fn owned_len(list: &OwnedKitties) -> (n: usize)
    ensures
        n == owned_ids(*list).len(),
{
    list.len()
}

/// `BoundedVec`'s `Index::index`: the identifier at a position. It panics
/// past the end, which `requires` leaves out.
#[verifier::external_body]
pub(crate) fn owned_at(list: &OwnedKitties, index: usize) -> (id: [u8; 32])
    requires
        index < owned_ids(*list).len(),
    ensures
        id == owned_ids(*list)[index as int],
{
    list[index]
}

/// `BoundedVec::try_push`: below the bound the identifier is appended and
/// `Ok(())` comes back; at the bound the list is left as it was and the
/// identifier comes back in `Err`.
#[verifier::external_body]
pub(crate) fn owned_try_push(
    list: &mut OwnedKitties,
    id: [u8; 32],
) -> (pushed: Result<(), [u8; 32]>)
    ensures
        match pushed {
            Ok(_) => owned_ids(*old(list)).len() < MAX_KITTIES_OWNED && owned_ids(*final(list))
                == owned_ids(*old(list)).push(id),
            Err(back) => owned_ids(*old(list)).len() >= MAX_KITTIES_OWNED && back == id
                && owned_ids(*final(list)) == owned_ids(*old(list)),
        },
{
    list.try_push(id)
}

/// `BoundedVec::swap_remove`: the identifier at `index` leaves and is
/// returned, the last one takes its place, and the list is one shorter. It
/// panics past the end, which `requires` leaves out.
#[verifier::external_body]
pub(crate) fn owned_swap_remove(list: &mut OwnedKitties, index: usize) -> (id: [u8; 32])
    requires
        index < owned_ids(*old(list)).len(),
    ensures
        id == owned_ids(*old(list))[index as int],
        owned_ids(*final(list)) == owned_ids(*old(list)).update(
            index as int,
            owned_ids(*old(list)).last(),
        ).drop_last(),
{
    list.swap_remove(index)
}

} // verus!
