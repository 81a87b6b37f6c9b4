use kitties::{BlockContext, Event, Pallet};

const X: [u8; 32] = [1u8; 32];

/// Blake2b, 32 bytes long, of `[9u8; 32]`, 7 and `Some(3)` in SCALE encoding
/// and the counter 0.
const FIRST: [u8; 32] = [
    199, 8, 20, 154, 62, 47, 92, 164, 197, 13, 39, 53, 40, 183, 57, 234, 32, 5, 171, 157, 18, 111,
    12, 90, 127, 238, 236, 254, 79, 227, 160, 203,
];

/// The same with the counter 1.
const SECOND: [u8; 32] = [
    188, 155, 161, 187, 124, 163, 110, 155, 208, 205, 158, 95, 213, 83, 10, 57, 158, 27, 109, 103,
    172, 94, 166, 234, 213, 60, 63, 33, 196, 163, 91, 9,
];

fn context() -> BlockContext {
    BlockContext { parent_hash: [9u8; 32], block_number: 7, extrinsic_index: Some(3) }
}

#[test]
fn gen_dna_hashes_the_context_and_the_counter() {
    let pallet = Pallet::new();
    assert_eq!(pallet.gen_dna(&context()), FIRST);
    assert_ne!(pallet.gen_dna(&context()), context().parent_hash);
}

#[test]
fn gen_dna_of_an_empty_context() {
    let pallet = Pallet::new();
    let context = BlockContext { parent_hash: [0u8; 32], block_number: 0, extrinsic_index: None };
    let expected: [u8; 32] = [
        150, 78, 116, 136, 16, 139, 206, 87, 173, 161, 39, 161, 10, 12, 178, 172, 255, 65, 95,
        132, 51, 189, 213, 52, 23, 205, 87, 242, 113, 229, 130, 144,
    ];
    assert_eq!(pallet.gen_dna(&context), expected);
}

#[test]
fn gen_dna_reads_every_part_of_the_context() {
    let pallet = Pallet::new();
    let mut parent_hash = [0u8; 32];
    for (i, byte) in parent_hash.iter_mut().enumerate() {
        *byte = i as u8;
    }
    let context = BlockContext { parent_hash, block_number: 1_000_000, extrinsic_index: Some(0) };
    let expected: [u8; 32] = [
        36, 243, 212, 77, 166, 125, 150, 117, 132, 166, 243, 35, 105, 65, 100, 96, 126, 233, 17,
        111, 182, 37, 100, 100, 178, 20, 124, 251, 190, 231, 91, 96,
    ];
    assert_eq!(pallet.gen_dna(&context), expected);
    let other_block = BlockContext { block_number: 1_000_001, ..context };
    let other_index = BlockContext { extrinsic_index: None, ..context };
    assert_ne!(pallet.gen_dna(&other_block), expected);
    assert_ne!(pallet.gen_dna(&other_index), expected);
}

#[test]
fn gen_dna_is_the_same_for_the_same_input() {
    let pallet = Pallet::new();
    assert_eq!(pallet.gen_dna(&context()), pallet.gen_dna(&context()));
}

#[test]
fn gen_dna_follows_the_counter() {
    let mut pallet = Pallet::new();
    assert_eq!(pallet.create_kitty(X, &context()), Ok(FIRST));
    assert_eq!(pallet.gen_dna(&context()), SECOND);
    assert_eq!(pallet.create_kitty(X, &context()), Ok(SECOND));
    assert_eq!(pallet.kitty_count(), 2);
    assert_eq!(pallet.kitties_owned(&X), vec![FIRST, SECOND]);
    assert_eq!(pallet.events(), &vec![Event::Created { owner: X }, Event::Created { owner: X }]);
}
