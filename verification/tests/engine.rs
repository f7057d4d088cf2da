use des_cipher::encrypt::{
    final_permutation, get_permutated_block, initial_permutation,
    merge_32_block_in_reverse_order, permuted_choice_1, right_shift_offset_for,
    split_permutated_key_56, split_permutated_key_64,
};
use des_cipher::permutation_tables::{
    E_BIT_SELECTION_TABLE, INITIAL_PERMUTATION_TABLE, INVERSE_PERMUTATION_TABLE, PC_1_TABLE,
    PC_2_TABLE, P_TABLE,
};

#[test]
fn offset_is_the_unused_width() {
    assert_eq!(right_shift_offset_for(64), 0);
    assert_eq!(right_shift_offset_for(56), 8);
    assert_eq!(right_shift_offset_for(32), 32);
    assert_eq!(right_shift_offset_for(0), 64);
}

#[test]
fn initial_permutation_of_the_textbook_block() {
    let permuted = get_permutated_block(0x0123456789ABCDEF, INITIAL_PERMUTATION_TABLE, 0);
    assert_eq!(permuted, 0xCC00CCFFF0AAF0AA);
}

#[test]
fn initial_permutation_moves_single_bits() {
    // Position 1 (the most significant bit) is entry 40 of the table,
    // position 64 (the least significant bit) is entry 25.
    assert_eq!(get_permutated_block(1 << 63, INITIAL_PERMUTATION_TABLE, 0), 1 << 24);
    assert_eq!(get_permutated_block(1, INITIAL_PERMUTATION_TABLE, 0), 1 << 39);
}

#[test]
fn final_permutation_undoes_the_initial_one() {
    let blocks: [u64; 5] = [0, u64::MAX, 0x0123456789ABCDEF, 1, 1 << 63];
    for block in blocks {
        let forth = get_permutated_block(block, INITIAL_PERMUTATION_TABLE, 0);
        assert_eq!(get_permutated_block(forth, INVERSE_PERMUTATION_TABLE, 0), block);
        let back = get_permutated_block(block, INVERSE_PERMUTATION_TABLE, 0);
        assert_eq!(get_permutated_block(back, INITIAL_PERMUTATION_TABLE, 0), block);
    }
}

#[test]
fn final_permutation_of_the_textbook_block() {
    let permuted = get_permutated_block(0x0A4CD99543423234, INVERSE_PERMUTATION_TABLE, 0);
    assert_eq!(permuted, 0x85E813540F0AB405);
}

#[test]
fn pc1_drops_the_parity_bits() {
    let permuted = get_permutated_block(0x133457799BBCDFF1, PC_1_TABLE, 0);
    assert_eq!(permuted, 0x00F0CCAAF556678F);
    // Flipping the eight parity bits changes nothing.
    let flipped = get_permutated_block(0x133457799BBCDFF1 ^ 0x0101010101010101, PC_1_TABLE, 0);
    assert_eq!(flipped, permuted);
}

#[test]
fn pc2_reads_a_right_aligned_56_bit_field() {
    let combined: u64 = (0xE19955F << 28) | 0xAACCF1E;
    assert_eq!(get_permutated_block(combined, PC_2_TABLE, 8), 0x1B02EFFC7072);
    // The bits above the field are not read, and the result is 48 bits wide.
    assert_eq!(get_permutated_block(u64::MAX, PC_2_TABLE, 8), 0xFFFF_FFFF_FFFF);
    assert_eq!(get_permutated_block(0x00FF_FFFF_FFFF_FFFF, PC_2_TABLE, 8), 0xFFFF_FFFF_FFFF);
    assert_eq!(get_permutated_block(0xFF00_0000_0000_0000, PC_2_TABLE, 8), 0);
}

#[test]
fn expansion_and_p_read_a_32_bit_field() {
    assert_eq!(get_permutated_block(0xF0AAF0AA, E_BIT_SELECTION_TABLE, 32), 0x7A15557A1555);
    assert_eq!(get_permutated_block(0x5C82B597, P_TABLE, 32), 0x234AA9BB);
    assert_eq!(get_permutated_block(0xFFFF_FFFF_0000_0000, P_TABLE, 32), 0);
}

#[test]
fn empty_table_gives_zero() {
    let table: [u8; 0] = [];
    assert_eq!(get_permutated_block(u64::MAX, table, 0), 0);
}

#[test]
fn one_entry_table_reads_one_bit() {
    assert_eq!(get_permutated_block(1 << 63, [1u8], 0), 1);
    assert_eq!(get_permutated_block(1 << 62, [1u8], 0), 0);
    assert_eq!(get_permutated_block(1, [64u8], 0), 1);
    assert_eq!(get_permutated_block(1, [32u8], 32), 1);
    assert_eq!(get_permutated_block(1 << 31, [1u8], 32), 1);
}

#[test]
fn split_56_gives_two_28_bit_halves() {
    assert_eq!(split_permutated_key_56(0x00F0CCAAF556678F), (0xF0CCAAF, 0x556678F));
    assert_eq!(split_permutated_key_56(u64::MAX), (0x0FFF_FFFF, 0x0FFF_FFFF));
    assert_eq!(split_permutated_key_56(0), (0, 0));
}

#[test]
fn split_64_gives_two_32_bit_halves() {
    assert_eq!(split_permutated_key_64(0xCC00CCFFF0AAF0AA), (0xCC00CCFF, 0xF0AAF0AA));
    assert_eq!(split_permutated_key_64(u64::MAX), (0xFFFF_FFFF, 0xFFFF_FFFF));
}

#[test]
fn merge_puts_the_right_half_on_top() {
    assert_eq!(merge_32_block_in_reverse_order(0x43423234, 0x0A4CD995), 0x0A4CD99543423234);
    assert_eq!(merge_32_block_in_reverse_order(0, 1), 1 << 32);
    assert_eq!(merge_32_block_in_reverse_order(1, 0), 1);
}

#[test]
fn merge_undoes_split_with_the_halves_swapped() {
    let (left, right) = split_permutated_key_64(0x0123456789ABCDEF);
    assert_eq!(merge_32_block_in_reverse_order(right, left), 0x0123456789ABCDEF);
    assert_eq!(merge_32_block_in_reverse_order(left, right), 0x89ABCDEF01234567);
}

#[test]
fn named_stages_use_their_tables() {
    assert_eq!(initial_permutation(0x0123456789ABCDEF), 0xCC00CCFFF0AAF0AA);
    assert_eq!(final_permutation(0x0A4CD99543423234), 0x85E813540F0AB405);
    assert_eq!(permuted_choice_1(0x133457799BBCDFF1), 0x00F0CCAAF556678F);
    assert_eq!(final_permutation(initial_permutation(0xDEADBEEF00C0FFEE)), 0xDEADBEEF00C0FFEE);
}

#[test]
fn full_permutation_only_reorders_bits() {
    let fields: [u64; 6] = [0, 1, 0x8000_0000, 0x5C82B597, 0xFFFF_FFFF, 0x0F0F_1234];
    for field in fields {
        let image = get_permutated_block(field, P_TABLE, 32);
        assert_eq!(image.count_ones(), field.count_ones());
        assert!(image <= 0xFFFF_FFFF);
    }
    for block in [0u64, u64::MAX, 0x0123456789ABCDEF, 1 << 17] {
        let image = get_permutated_block(block, INITIAL_PERMUTATION_TABLE, 0);
        assert_eq!(image.count_ones(), block.count_ones());
    }
}

#[test]
fn full_permutation_keeps_distinct_fields_apart() {
    let mut images: Vec<u64> = Vec::new();
    for place in 0..32 {
        images.push(get_permutated_block(1u64 << place, P_TABLE, 32));
    }
    for place in 0..32 {
        // One bit in, one bit out, and no two places land on the same one.
        assert_eq!(images[place].count_ones(), 1);
        for other in 0..place {
            assert_ne!(images[place], images[other]);
        }
    }
}
