//! The executable cipher: permutation engine, key schedule, round function
//! and the sixteen rounds.

use crate::binary_pads::{
    BIT_PAD_28, EIGHTH_6BIT_IN_48, FIFTH_6BIT_IN_48, FIRST_6BIT_IN_48, FORTH_6BIT_IN_48,
    LEFT_SPLIT_KEY_PAD_56, LEFT_SPLIT_KEY_PAD_64, RIGHT_SPLIT_KEY_PAD_56, RIGHT_SPLIT_KEY_PAD_64,
    SECOND_6BIT_IN_48, SEVENTH_6BIT_IN_48, SIXTH_6BIT_IN_48, THIRD_6BIT_IN_48,
};
use crate::bits::{
    bit_set, fits_width, lemma_bits_determine_value, lemma_low_bit_range, lemma_set_bit,
    lemma_zero_bits,
};
use crate::hex::{parse_hex, parse_hex_block};
use crate::logging::{
    block_trace, populate_inverse_ip_log_table, populate_ip_log_table, populate_round_log_table,
    rounds_trace, trace_view, DesLog,
};
use crate::model::{
    block_halves, compress_pair, decrypt, encrypt, feistel, key_halves, key_schedule,
    lemma_permute_bits, lemma_permute_width, lemma_round_function_width, permute, rotate_left_28, rotated_pair, round_function, run_rounds, sbox_column, sbox_index,
    sbox_row, source_position, subkey, swap_merge,
};
use crate::permutation_tables::{
    E_BIT_SELECTION_TABLE, INITIAL_PERMUTATION_TABLE, INVERSE_PERMUTATION_TABLE, PC1_SHIFT_SIZES,
    PC_1_TABLE, PC_2_TABLE, P_TABLE, S1_TABLE, S2_TABLE, S3_TABLE, S4_TABLE, S5_TABLE, S6_TABLE,
    S7_TABLE, S8_TABLE,
};
use vstd::prelude::*;

verus! {

/// The offset to hand to [`get_permutated_block`] for a table whose source
/// field is `source_width` bits wide and right-aligned in a 64-bit register.
pub fn right_shift_offset_for(source_width: u8) -> (offset: u8)
    requires
        source_width <= 64,
    ensures
        offset == 64 - source_width,
{
    64 - source_width
}

/// Maps `u64_block` through `permutation_table`: output bit `N - 1 - i` is the
/// input bit at position `(63 - (table[i] - 1)) - right_shift_offset`.
pub fn get_permutated_block<const N: usize>(
    u64_block: u64,
    permutation_table: [u8; N],
    right_shift_offset: u8,
) -> (permutated_block: u64)
    requires
        N <= 64,
        forall|i: int|
            0 <= i < N ==> 1 <= #[trigger] permutation_table[i] && permutation_table[i]
                + right_shift_offset <= 64,
    ensures
        permutated_block == permute(u64_block, permutation_table@, right_shift_offset),
        forall|j: int|
            0 <= j < 64 ==> #[trigger] bit_set(permutated_block, j) == (j < N && bit_set(
                u64_block,
                source_position(permutation_table[N - 1 - j], right_shift_offset),
            )),
        fits_width(permutated_block, N as int),
{
    let mut permutated_block: u64 = 0;
    proof {
        assert forall|j: int| 0 <= j < 64 implies !#[trigger] bit_set(permutated_block, j) by {
            lemma_zero_bits(j);
        }
    }
    for index in 0..N
        invariant
            N <= 64,
            forall|i: int|
                0 <= i < N ==> 1 <= #[trigger] permutation_table[i] && permutation_table[i]
                    + right_shift_offset <= 64,
            forall|j: int|
                0 <= j < 64 ==> #[trigger] bit_set(permutated_block, j) == (N - index <= j < N
                    && bit_set(
                    u64_block,
                    source_position(permutation_table[N - 1 - j], right_shift_offset),
                )),
    {
        let target_bit_index: u8 = permutation_table[index] - 1;
        let right_shift: u8 = 63 - target_bit_index;
        let bit: u64 = (u64_block >> (right_shift - right_shift_offset)) & 1;
        let new_block_with_bit: u64 = bit << (N - index - 1);
        proof {
            lemma_low_bit_range(u64_block, (right_shift - right_shift_offset) as u64);
            assert forall|j: int| 0 <= j < 64 implies #[trigger] bit_set(
                permutated_block | new_block_with_bit,
                j,
            ) == (N - (index + 1) <= j < N && bit_set(
                u64_block,
                source_position(permutation_table[N - 1 - j], right_shift_offset),
            )) by {
                lemma_set_bit(permutated_block, bit, N - index - 1, j);
            }
        }
        permutated_block |= new_block_with_bit;
    }
    proof {
        let spec_block = permute(u64_block, permutation_table@, right_shift_offset);
        assert forall|j: int| 0 <= j < 64 implies bit_set(permutated_block, j) == bit_set(
            spec_block,
            j,
        ) by {
            lemma_permute_bits(u64_block, permutation_table@, right_shift_offset, j);
        }
        lemma_bits_determine_value(permutated_block, spec_block);
    }
    permutated_block
}

proof fn lemma_half_masks(x: u64)
    by (bit_vector)
    ensures
        (x & 0x00FF_FFFF_F000_0000) >> 28 == (x >> 28) & 0x0FFF_FFFF,
        (x & 0xFFFF_FFFF_0000_0000) >> 32 == x >> 32,
        (x >> 28) & 0x0FFF_FFFF <= 0x0FFF_FFFF,
        x & 0x0FFF_FFFF <= 0x0FFF_FFFF,
        x >> 32 <= 0xFFFF_FFFF,
        x & 0xFFFF_FFFF <= 0xFFFF_FFFF,
{
}

/// The block after the initial permutation IP.
pub fn initial_permutation(block: u64) -> (permuted: u64)
    ensures
        permuted == permute(block, INITIAL_PERMUTATION_TABLE@, 0),
{
    get_permutated_block(block, INITIAL_PERMUTATION_TABLE, right_shift_offset_for(64))
}

/// The block after the final permutation, the inverse of IP.
pub fn final_permutation(block: u64) -> (permuted: u64)
    ensures
        permuted == permute(block, INVERSE_PERMUTATION_TABLE@, 0),
{
    get_permutated_block(block, INVERSE_PERMUTATION_TABLE, right_shift_offset_for(64))
}

/// The 56 key bits that PC-1 selects from a 64-bit key, right-aligned.
pub fn permuted_choice_1(key: u64) -> (key_56: u64)
    ensures
        key_56 == permute(key, PC_1_TABLE@, 0),
        key_56 <= 0x00FF_FFFF_FFFF_FFFF,
{
    proof {
        lemma_permute_width(key, PC_1_TABLE@, 0);
    }
    get_permutated_block(key, PC_1_TABLE, right_shift_offset_for(64))
}

/// The two 28-bit halves of a right-aligned 56-bit field, upper half first.
pub fn split_permutated_key_56(key_56: u64) -> (halves: (u64, u64))
    ensures
        halves == key_halves(key_56),
        halves.0 <= BIT_PAD_28,
        halves.1 <= BIT_PAD_28,
{
    let left_split_block: u64 = (key_56 & LEFT_SPLIT_KEY_PAD_56) >> 28;
    let right_split_block: u64 = key_56 & RIGHT_SPLIT_KEY_PAD_56;
    proof {
        lemma_half_masks(key_56);
    }
    (left_split_block, right_split_block)
}

/// The two 32-bit halves of a block, upper half first.
pub fn split_permutated_key_64(key_64: u64) -> (halves: (u64, u64))
    ensures
        halves == block_halves(key_64),
        halves.0 <= 0xFFFF_FFFF,
        halves.1 <= 0xFFFF_FFFF,
{
    let left_split_block: u64 = (key_64 & LEFT_SPLIT_KEY_PAD_64) >> 32;
    let right_split_block: u64 = key_64 & RIGHT_SPLIT_KEY_PAD_64;
    proof {
        lemma_half_masks(key_64);
    }
    (left_split_block, right_split_block)
}

/// Puts `right_64` in the upper and `left_64` in the lower 32 bits of a block.
pub fn merge_32_block_in_reverse_order(left_64: u64, right_64: u64) -> (block: u64)
    ensures
        block == swap_merge(left_64, right_64),
{
    (right_64 << 32) | left_64
}

/// One place of rotation within the 28-bit field, as the loop of
/// [`left_shift_28_bit_pair`] performs it.
spec fn rotate_28_once(v: u64) -> u64 {
    ((v << 1) | ((((1u64 << 27) & v) >> 27) & 1)) & 0x0FFF_FFFF
}

proof fn lemma_rotate_first(x: u64)
    by (bit_vector)
    ensures
        ((x << 1) | ((((1u64 << 27) & x) >> 27) & 1)) & 0x0FFF_FFFF == (((x & 0x0FFF_FFFF) << 1)
            | ((x & 0x0FFF_FFFF) >> 27)) & 0x0FFF_FFFF,
{
}

proof fn lemma_rotate_next(y: u64, k: u64)
    by (bit_vector)
    requires
        k < 28,
        y <= 0x0FFF_FFFF,
    ensures
        ({
            let v = ((y << k) | (y >> ((28 - k) as u64))) & 0x0FFF_FFFF;
            let k2 = if k == 27 {
                0u64
            } else {
                (k + 1) as u64
            };
            ((v << 1) | ((((1u64 << 27) & v) >> 27) & 1)) & 0x0FFF_FFFF == ((y << k2) | (y >> ((28
                - k2) as u64))) & 0x0FFF_FFFF
        }),
{
}

proof fn lemma_rotate_step(x: u64, n: nat)
    ensures
        rotate_28_once(rotate_left_28(x, n)) == rotate_left_28(x, n + 1),
{
    if n == 0 {
        lemma_rotate_first(x);
    } else {
        lemma_half_masks(x);
        lemma_rotate_next(x & BIT_PAD_28, (n % 28) as u64);
    }
}

/// Rotates both 28-bit key registers left by `shift_size` places, one place
/// at a time.
pub fn left_shift_28_bit_pair(left_key: u64, right_key: u64, shift_size: usize) -> (shifted: (
    u64,
    u64,
))
    ensures
        shifted.0 == rotate_left_28(left_key, shift_size as nat),
        shifted.1 == rotate_left_28(right_key, shift_size as nat),
{
    let mut mutated_left_key: u64 = left_key;
    let mut mutated_right_key: u64 = right_key;
    for index in 0..shift_size
        invariant
            mutated_left_key == rotate_left_28(left_key, index as nat),
            mutated_right_key == rotate_left_28(right_key, index as nat),
    {
        let left_key_left_most_bit: u64 = (1u64 << 27) & mutated_left_key;
        let right_key_left_most_bit: u64 = (1u64 << 27) & mutated_right_key;
        let left_key_bit: u64 = (left_key_left_most_bit >> 27) & 1;
        let right_key_bit: u64 = (right_key_left_most_bit >> 27) & 1;
        proof {
            lemma_rotate_step(left_key, index as nat);
            lemma_rotate_step(right_key, index as nat);
        }
        mutated_left_key = ((mutated_left_key << 1) | left_key_bit) & BIT_PAD_28;
        mutated_right_key = ((mutated_right_key << 1) | right_key_bit) & BIT_PAD_28;
    }
    (mutated_left_key, mutated_right_key)
}

/// The key registers after each of the sixteen rounds, started from the
/// halves that PC-1 gives: round `r` rotates the pair of round `r - 1` by one
/// place where `r` is 0, 1, 8 or 15 and by two places in every other round.
pub fn get_pc1_shifted_keys(left_key: u64, right_key: u64) -> (pairs: [(u64, u64); 16])
    ensures
        forall|round: int|
            0 <= round < 16 ==> #[trigger] pairs[round] == rotated_pair(left_key, right_key, round),
{
    let mut pairs: [(u64, u64); 16] = [(0, 0);16];
    let mut prev_left: u64 = left_key;
    let mut prev_right: u64 = right_key;
    for i in 0..16
        invariant
            (prev_left, prev_right) == rotated_pair(left_key, right_key, i - 1),
            forall|round: int|
                0 <= round < i ==> #[trigger] pairs[round] == rotated_pair(
                    left_key,
                    right_key,
                    round,
                ),
    {
        pairs[i] = left_shift_28_bit_pair(prev_left, prev_right, PC1_SHIFT_SIZES[i]);
        prev_left = pairs[i].0;
        prev_right = pairs[i].1;
    }
    pairs
}

/// The subkey that PC-2 selects from each pair of key registers.
pub fn get_pc2_permuted_keys(pc_1_keys: [(u64, u64); 16]) -> (pc_2_keys: [u64; 16])
    ensures
        forall|round: int|
            0 <= round < 16 ==> #[trigger] pc_2_keys[round] == compress_pair(
                pc_1_keys[round].0,
                pc_1_keys[round].1,
            ),
        forall|round: int| 0 <= round < 16 ==> #[trigger] pc_2_keys[round] <= 0xFFFF_FFFF_FFFF,
{
    let mut pc_2_keys: [u64; 16] = [0;16];
    for i in 0..16
        invariant
            forall|round: int|
                0 <= round < i ==> #[trigger] pc_2_keys[round] == compress_pair(
                    pc_1_keys[round].0,
                    pc_1_keys[round].1,
                ),
            forall|round: int| 0 <= round < i ==> #[trigger] pc_2_keys[round] <= 0xFFFF_FFFF_FFFF,
    {
        let (left, right) = pc_1_keys[i];
        let left_shifted: u64 = left << 28;
        let combined_block: u64 = left_shifted | right;
        let key: u64 = get_permutated_block(
            combined_block,
            PC_2_TABLE,
            right_shift_offset_for(56),
        );
        proof {
            lemma_permute_width(combined_block, PC_2_TABLE@, 8);
        }
        pc_2_keys[i] = key;
    }
    pc_2_keys
}

/// The sixteen 48-bit subkeys of a 64-bit key, in the order in which
/// encryption uses them. The result is a function of the key alone: the same
/// key gives the same sixteen subkeys on every call.
pub fn derive_subkeys(key: u64) -> (subkeys: [u64; 16])
    ensures
        subkeys@ == key_schedule(key),
        forall|round: int| 0 <= round < 16 ==> #[trigger] subkeys[round] == subkey(key, round),
        forall|round: int| 0 <= round < 16 ==> #[trigger] subkeys[round] <= 0xFFFF_FFFF_FFFF,
{
    let permutated_key_block: u64 = permuted_choice_1(key);
    let (left, right) = split_permutated_key_56(permutated_key_block);
    let permuted_pc1_keys = get_pc1_shifted_keys(left, right);
    let subkeys = get_pc2_permuted_keys(permuted_pc1_keys);
    proof {
        assert(subkeys@ =~= key_schedule(key));
    }
    subkeys
}

proof fn lemma_row_and_column(b: u64)
    by (bit_vector)
    ensures
        ((b >> 4) & 2) | (b & 1) == (if (b >> 5) & 1 == 1 {
            2u64
        } else {
            0u64
        }) + (if (b >> 0) & 1 == 1 {
            1u64
        } else {
            0u64
        }),
        (b >> 1) & 15 <= 15,
{
}

/// The place in an S-box, stored row after row, of the substitute of a
/// six-bit group: the row is the group's two outer bits, the column its four
/// middle bits.
pub fn get_s_box_index(bit_6_block: u64) -> (index: usize)
    ensures
        index == sbox_index(bit_6_block),
        index == sbox_row(bit_6_block) * 16 + sbox_column(bit_6_block),
        0 <= sbox_row(bit_6_block) <= 3,
        0 <= sbox_column(bit_6_block) <= 15,
        index < 64,
{
    let first_bit: u64 = (bit_6_block >> 4) & 2;
    let last_bit: u64 = bit_6_block & 1;
    let middle_4_bits: u64 = (bit_6_block >> 1) & 15;
    let row: u64 = first_bit | last_bit;
    let col: u64 = middle_4_bits;
    proof {
        lemma_row_and_column(bit_6_block);
    }
    (row * 16 + col) as usize
}

proof fn lemma_group_masks(x: u64)
    by (bit_vector)
    ensures
        (x & 0x0000_FC00_0000_0000) >> 42 == (x >> 42) & 0x3F,
        (x & 0x0000_03F0_0000_0000) >> 36 == (x >> 36) & 0x3F,
        (x & 0x0000_000F_C000_0000) >> 30 == (x >> 30) & 0x3F,
        (x & 0x0000_0000_3F00_0000) >> 24 == (x >> 24) & 0x3F,
        (x & 0x0000_0000_00FC_0000) >> 18 == (x >> 18) & 0x3F,
        (x & 0x0000_0000_0003_F000) >> 12 == (x >> 12) & 0x3F,
        (x & 0x0000_0000_0000_0FC0) >> 6 == (x >> 6) & 0x3F,
        x & 0x0000_0000_0000_003F == (x >> 0) & 0x3F,
{
}

proof fn lemma_xor_commutes(a: u64, b: u64)
    by (bit_vector)
    ensures
        a ^ b == b ^ a,
{
}

/// The round function on a 32-bit half and a 48-bit subkey: expansion through
/// E, xor with the subkey, the eight S-boxes, the permutation P.
pub fn f_function(block_32: u64, key: u64) -> (mixed: u64)
    ensures
        mixed == round_function(block_32, key),
        mixed <= 0xFFFF_FFFF,
{
    proof {
        lemma_round_function_width(block_32, key);
    }
    let expanded_block: u64 = get_permutated_block(
        block_32,
        E_BIT_SELECTION_TABLE,
        right_shift_offset_for(32),
    );
    let key_xor_expanded_block: u64 = key ^ expanded_block;
    proof {
        lemma_xor_commutes(key, expanded_block);
        lemma_group_masks(key_xor_expanded_block);
    }
    let b1: u64 = (key_xor_expanded_block & FIRST_6BIT_IN_48) >> 42;
    let b1_sub: u64 = S1_TABLE[get_s_box_index(b1)];
    let b2: u64 = (key_xor_expanded_block & SECOND_6BIT_IN_48) >> 36;
    let b2_sub: u64 = S2_TABLE[get_s_box_index(b2)];
    let b3: u64 = (key_xor_expanded_block & THIRD_6BIT_IN_48) >> 30;
    let b3_sub: u64 = S3_TABLE[get_s_box_index(b3)];
    let b4: u64 = (key_xor_expanded_block & FORTH_6BIT_IN_48) >> 24;
    let b4_sub: u64 = S4_TABLE[get_s_box_index(b4)];
    let b5: u64 = (key_xor_expanded_block & FIFTH_6BIT_IN_48) >> 18;
    let b5_sub: u64 = S5_TABLE[get_s_box_index(b5)];
    let b6: u64 = (key_xor_expanded_block & SIXTH_6BIT_IN_48) >> 12;
    let b6_sub: u64 = S6_TABLE[get_s_box_index(b6)];
    let b7: u64 = (key_xor_expanded_block & SEVENTH_6BIT_IN_48) >> 6;
    let b7_sub: u64 = S7_TABLE[get_s_box_index(b7)];
    let b8: u64 = key_xor_expanded_block & EIGHTH_6BIT_IN_48;
    let b8_sub: u64 = S8_TABLE[get_s_box_index(b8)];
    let sub: u64 = (b1_sub << 28) | (b2_sub << 24) | (b3_sub << 20) | (b4_sub << 16) | (b5_sub
        << 12) | (b6_sub << 8) | (b7_sub << 4) | (b8_sub);
    let permutated_block_after_p_table: u64 = get_permutated_block(
        sub,
        P_TABLE,
        right_shift_offset_for(32),
    );
    permutated_block_after_p_table
}

/// The sixteen rounds on a block that has been through the initial
/// permutation, with one trace record per round: the result is the last pair
/// of halves merged in swapped order.
pub fn run_16_rounds(
    plaintext_after_init_permutation_block: u64,
    subkeys: [u64; 16],
    des_log_table: &mut Vec<DesLog>,
) -> (reversed_block: u64)
    ensures
        reversed_block == run_rounds(plaintext_after_init_permutation_block, subkeys@),
        trace_view(final(des_log_table)@) == trace_view(old(des_log_table)@) + rounds_trace(
            block_halves(plaintext_after_init_permutation_block).0,
            block_halves(plaintext_after_init_permutation_block).1,
            subkeys@,
        ),
{
    let (left_split, right_split) = split_permutated_key_64(plaintext_after_init_permutation_block);
    let mut prev_left_block: u64 = left_split;
    let mut prev_right_block: u64 = right_split;
    let mut left_block: u64 = 0;
    let mut right_block: u64 = 0;
    let ghost rounds = rounds_trace(left_split, right_split, subkeys@);
    assert(trace_view(des_log_table@) =~= trace_view(old(des_log_table)@) + rounds.take(0));
    for index in 0..16
        invariant
            rounds == rounds_trace(left_split, right_split, subkeys@),
            (prev_left_block, prev_right_block) == feistel(
                left_split,
                right_split,
                subkeys@.take(index as int),
            ),
            index > 0 ==> left_block == prev_left_block && right_block == prev_right_block,
            trace_view(des_log_table@) == trace_view(old(des_log_table)@) + rounds.take(
                index as int,
            ),
    {
        left_block = prev_right_block;
        right_block = prev_left_block ^ f_function(prev_right_block, subkeys[index]);
        proof {
            let done = subkeys@.take(index + 1);
            assert(done.drop_last() =~= subkeys@.take(index as int));
            assert(done.last() == subkeys@[index as int]);
            assert((left_block, right_block) == feistel(left_split, right_split, done));
        }
        prev_left_block = left_block;
        prev_right_block = right_block;
        populate_round_log_table(des_log_table, index + 1, subkeys[index], left_block, right_block);
        proof {
            assert(rounds.take(index + 1) =~= rounds.take(index as int).push(
                rounds[index as int],
            ));
            assert(trace_view(des_log_table@) =~= trace_view(old(des_log_table)@) + rounds.take(
                index + 1,
            ));
        }
    }
    proof {
        assert(subkeys@.take(16) =~= subkeys@);
        assert(rounds.take(16) =~= rounds);
    }
    merge_32_block_in_reverse_order(left_block, right_block)
}

/// The sixteen subkeys in the opposite order: the schedule of decryption.
pub fn reverse_subkeys(subkeys: [u64; 16]) -> (reversed: [u64; 16])
    ensures
        reversed@ == subkeys@.reverse(),
{
    let mut reversed: [u64; 16] = [0;16];
    for i in 0..16
        invariant
            forall|k: int| 0 <= k < i ==> #[trigger] reversed[k] == subkeys[15 - k],
    {
        reversed[i] = subkeys[15 - i];
    }
    proof {
        assert(reversed@ =~= subkeys@.reverse());
    }
    reversed
}

/// One block through the cipher under a schedule of sixteen subkeys: the
/// initial permutation, the rounds, the final permutation, with the trace of
/// all eighteen steps.
pub fn process_block(block: u64, subkeys: [u64; 16], des_log_table: &mut Vec<DesLog>) -> (result:
    u64)
    ensures
        result == permute(
            run_rounds(permute(block, INITIAL_PERMUTATION_TABLE@, 0), subkeys@),
            INVERSE_PERMUTATION_TABLE@,
            0,
        ),
        trace_view(final(des_log_table)@) == trace_view(old(des_log_table)@) + block_trace(
            block,
            subkeys@,
        ),
{
    let plaintext_after_init_permutation_block: u64 = initial_permutation(block);
    populate_ip_log_table(des_log_table, plaintext_after_init_permutation_block);
    let reversed_block: u64 = run_16_rounds(
        plaintext_after_init_permutation_block,
        subkeys,
        des_log_table,
    );
    let final_permutated_block: u64 = final_permutation(reversed_block);
    populate_inverse_ip_log_table(des_log_table, final_permutated_block);
    proof {
        assert(trace_view(des_log_table@) =~= trace_view(old(des_log_table)@) + block_trace(
            block,
            subkeys@,
        ));
    }
    final_permutated_block
}

/// Encrypts one 64-bit block under a 64-bit key and appends the trace of the
/// run to `des_log_table`.
pub fn encrypt_block(plaintext: u64, key: u64, des_log_table: &mut Vec<DesLog>) -> (ciphertext:
    u64)
    ensures
        ciphertext == encrypt(plaintext, key),
        trace_view(final(des_log_table)@) == trace_view(old(des_log_table)@) + block_trace(
            plaintext,
            key_schedule(key),
        ),
{
    let subkeys: [u64; 16] = derive_subkeys(key);
    process_block(plaintext, subkeys, des_log_table)
}

/// Decrypts one 64-bit block under a 64-bit key, with the subkeys of
/// encryption in reverse order, and appends the trace of the run to
/// `des_log_table`.
pub fn decrypt_block(ciphertext: u64, key: u64, des_log_table: &mut Vec<DesLog>) -> (plaintext:
    u64)
    ensures
        plaintext == decrypt(ciphertext, key),
        trace_view(final(des_log_table)@) == trace_view(old(des_log_table)@) + block_trace(
            ciphertext,
            key_schedule(key).reverse(),
        ),
{
    let subkeys: [u64; 16] = reverse_subkeys(derive_subkeys(key));
    process_block(ciphertext, subkeys, des_log_table)
}

/// The sixteen subkeys of a key written as hexadecimal digits.
pub fn get_subkeys(key_input: String) -> (subkeys: [u64; 16])
    requires
        parse_hex(key_input@) is Some,
    ensures
        subkeys@ == key_schedule(parse_hex(key_input@)->0),
{
    let key_block: u64 = parse_hex_block(key_input.as_str()).unwrap();
    derive_subkeys(key_block)
}

/// Encrypts a block under a key, both written as hexadecimal digits. The
/// trace of the run is not kept: [`encrypt_block`] hands it out.
pub fn des_encrypt(plaintext_input: String, key_input: String) -> (ciphertext: u64)
    requires
        parse_hex(plaintext_input@) is Some,
        parse_hex(key_input@) is Some,
    ensures
        ciphertext == encrypt(parse_hex(plaintext_input@)->0, parse_hex(key_input@)->0),
{
    let mut des_log_table: Vec<DesLog> = Vec::new();
    let plaintext_u64_block: u64 = parse_hex_block(plaintext_input.as_str()).unwrap();
    let key_block: u64 = parse_hex_block(key_input.as_str()).unwrap();
    encrypt_block(plaintext_u64_block, key_block, &mut des_log_table)
}

/// Decrypts a block under a key, both written as hexadecimal digits. The
/// trace of the run is not kept: [`decrypt_block`] hands it out.
pub fn des_decrypt(ciphertext: String, key_input: String) -> (plaintext: u64)
    requires
        parse_hex(ciphertext@) is Some,
        parse_hex(key_input@) is Some,
    ensures
        plaintext == decrypt(parse_hex(ciphertext@)->0, parse_hex(key_input@)->0),
{
    let mut des_log_table: Vec<DesLog> = Vec::new();
    let ciphertext_u64_block: u64 = parse_hex_block(ciphertext.as_str()).unwrap();
    let key_block: u64 = parse_hex_block(key_input.as_str()).unwrap();
    decrypt_block(ciphertext_u64_block, key_block, &mut des_log_table)
}

} // verus!
