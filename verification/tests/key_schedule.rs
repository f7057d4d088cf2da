use des_cipher::encrypt::{
    derive_subkeys, get_pc1_shifted_keys, get_pc2_permuted_keys, get_subkeys,
    left_shift_28_bit_pair, reverse_subkeys,
};
use des_cipher::permutation_tables::PC1_SHIFT_SIZES;

#[test]
fn rotation_wraps_within_28_bits() {
    assert_eq!(left_shift_28_bit_pair(1, 0x8000000, 1), (2, 1));
    assert_eq!(left_shift_28_bit_pair(0x8000000, 0x4000000, 2), (2, 1));
    assert_eq!(left_shift_28_bit_pair(0xFFFFFFF, 0, 1), (0xFFFFFFF, 0));
    assert_eq!(left_shift_28_bit_pair(0xF0CCAAF, 0x556678F, 1), (0xE19955F, 0xAACCF1E));
}

#[test]
fn rotation_by_nothing_changes_nothing() {
    assert_eq!(left_shift_28_bit_pair(0xF0CCAAF, 0x556678F, 0), (0xF0CCAAF, 0x556678F));
    assert_eq!(left_shift_28_bit_pair(u64::MAX, 1 << 40, 0), (u64::MAX, 1 << 40));
}

#[test]
fn rotation_by_the_width_is_the_identity_on_the_field() {
    assert_eq!(left_shift_28_bit_pair(0xF0CCAAF, 0x556678F, 28), (0xF0CCAAF, 0x556678F));
    assert_eq!(left_shift_28_bit_pair(0xF0CCAAF, 0x556678F, 29), (0xE19955F, 0xAACCF1E));
    assert_eq!(left_shift_28_bit_pair(0xF0CCAAF, 0x556678F, 56), (0xF0CCAAF, 0x556678F));
}

#[test]
fn rotation_drops_what_lies_above_the_field() {
    assert_eq!(left_shift_28_bit_pair(0xF000_0001, u64::MAX, 1), (2, 0xFFFFFFF));
}

#[test]
fn rotation_schedule_is_one_place_in_rounds_1_2_9_16() {
    for round in 0..16 {
        let expected = if round == 0 || round == 1 || round == 8 || round == 15 { 1 } else { 2 };
        assert_eq!(PC1_SHIFT_SIZES[round], expected);
    }
    let total: usize = PC1_SHIFT_SIZES.iter().sum();
    assert_eq!(total, 28);
}

#[test]
fn key_registers_follow_the_rotation_schedule() {
    let pairs = get_pc1_shifted_keys(1, 0x8000000);
    let expected: [(u64, u64); 16] = [
        (0x2, 0x1),
        (0x4, 0x2),
        (0x10, 0x8),
        (0x40, 0x20),
        (0x100, 0x80),
        (0x400, 0x200),
        (0x1000, 0x800),
        (0x4000, 0x2000),
        (0x8000, 0x4000),
        (0x20000, 0x10000),
        (0x80000, 0x40000),
        (0x200000, 0x100000),
        (0x800000, 0x400000),
        (0x2000000, 0x1000000),
        (0x8000000, 0x4000000),
        (0x1, 0x8000000),
    ];
    assert_eq!(pairs, expected);
}

#[test]
fn key_registers_of_the_textbook_key() {
    let pairs = get_pc1_shifted_keys(0xF0CCAAF, 0x556678F);
    assert_eq!(pairs[0], (0xE19955F, 0xAACCF1E));
    assert_eq!(pairs[1], (0xC332ABF, 0x5599E3D));
    assert_eq!(pairs[2], (0x0CCAAFF, 0x56678F5));
    // Twenty-eight places in all: the last pair is the first one again.
    assert_eq!(pairs[15], (0xF0CCAAF, 0x556678F));
}

#[test]
fn pc2_is_applied_to_every_pair() {
    let mut pairs: [(u64, u64); 16] = [(0, 0); 16];
    pairs[0] = (0xE19955F, 0xAACCF1E);
    pairs[15] = (0xFFFFFFF, 0xFFFFFFF);
    let keys = get_pc2_permuted_keys(pairs);
    assert_eq!(keys[0], 0x1B02EFFC7072);
    assert_eq!(keys[1], 0);
    assert_eq!(keys[15], 0xFFFF_FFFF_FFFF);
}

const TEXTBOOK_SUBKEYS: [u64; 16] = [
    0x1B02EFFC7072,
    0x79AED9DBC9E5,
    0x55FC8A42CF99,
    0x72ADD6DB351D,
    0x7CEC07EB53A8,
    0x63A53E507B2F,
    0xEC84B7F618BC,
    0xF78A3AC13BFB,
    0xE0DBEBEDE781,
    0xB1F347BA464F,
    0x215FD3DED386,
    0x7571F59467E9,
    0x97C5D1FABA41,
    0x5F43B7F2E73A,
    0xBF918D3D3F0A,
    0xCB3D8B0E17F5,
];

#[test]
fn subkeys_of_the_textbook_key() {
    assert_eq!(derive_subkeys(0x133457799BBCDFF1), TEXTBOOK_SUBKEYS);
    assert_eq!(get_subkeys("133457799BBCDFF1".to_string()), TEXTBOOK_SUBKEYS);
}

#[test]
fn subkeys_are_the_same_on_every_call() {
    let keys: [u64; 4] = [0, u64::MAX, 0x133457799BBCDFF1, 0x0E329232EA6D0D73];
    for key in keys {
        assert_eq!(derive_subkeys(key), derive_subkeys(key));
    }
}

#[test]
fn subkeys_are_48_bits_wide() {
    let keys: [u64; 3] = [u64::MAX, 0x133457799BBCDFF1, 0xFEDCBA9876543210];
    for key in keys {
        for subkey in derive_subkeys(key) {
            assert!(subkey <= 0xFFFF_FFFF_FFFF);
        }
    }
}

#[test]
fn subkeys_of_the_weak_keys() {
    assert_eq!(derive_subkeys(0), [0u64; 16]);
    assert_eq!(derive_subkeys(u64::MAX), [0xFFFF_FFFF_FFFFu64; 16]);
    // The parity bits do not count.
    assert_eq!(derive_subkeys(0x0101010101010101), [0u64; 16]);
}

#[test]
fn reversed_subkeys_run_backwards() {
    let reversed = reverse_subkeys(TEXTBOOK_SUBKEYS);
    for round in 0..16 {
        assert_eq!(reversed[round], TEXTBOOK_SUBKEYS[15 - round]);
    }
    assert_eq!(reverse_subkeys(reversed), TEXTBOOK_SUBKEYS);
}
