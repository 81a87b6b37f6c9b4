//! Where identifiers come from: a hash over the block's data and the counter.

use sp_runtime::traits::BlakeTwo256;
use vstd::prelude::*;

verus! {

/// The identifier that belongs to a parent hash, a block number, an extrinsic
/// index and a count of kitties: the Blake2 hash, 256 bits long, of the four
/// values in their SCALE encoding, one after the other.
pub uninterp spec fn dna_of(
    parent_hash: [u8; 32],
    block_number: u32,
    extrinsic_index: Option<u32>,
    count: u32,
) -> [u8; 32];

/// `BlakeTwo256::hash_of` on the tuple of the four values. It encodes the
/// tuple and hashes the bytes, so it returns the same for the same four
/// values; nothing else is claimed of it.
#[verifier::external_body]
pub(crate) fn hash_payload(
    parent_hash: [u8; 32],
    block_number: u32,
    extrinsic_index: Option<u32>,
    count: u32,
) -> (dna: [u8; 32])
    ensures
        dna == dna_of(parent_hash, block_number, extrinsic_index, count),
{
    <BlakeTwo256 as sp_runtime::traits::Hash>::hash_of(
        &(parent_hash, block_number, extrinsic_index, count),
    ).into()
}

} // verus!
