//! The cipher as mathematics: what each stage computes, as spec functions.

use crate::binary_pads::BIT_PAD_28;
use crate::bits::{
    bit_set, fits_width, lemma_high_bits_clear, lemma_low_bit_range, lemma_shift_in,
    lemma_width_bounds, lemma_zero_bits,
};
use crate::permutation_tables::{
    E_BIT_SELECTION_TABLE, INITIAL_PERMUTATION_TABLE, INVERSE_PERMUTATION_TABLE, PC_1_TABLE,
    PC_2_TABLE, P_TABLE, S1_TABLE, S2_TABLE, S3_TABLE, S4_TABLE, S5_TABLE, S6_TABLE, S7_TABLE,
    S8_TABLE,
};
use vstd::prelude::*;

verus! {

/// Where a table entry reads its bit: the entry counts from 1 at the most
/// significant bit of a 64-bit frame, and `offset` is the number of unused
/// bits above a narrower, right-aligned source field.
pub open spec fn source_position(entry: u8, offset: u8) -> int {
    (63 - (entry - 1)) - offset
}

/// The bit of `x` that `entry` selects, as 0 or 1.
pub open spec fn source_bit(x: u64, entry: u8, offset: u8) -> u64 {
    (x >> (source_position(entry, offset) as u64)) & 1
}

/// The bits of `x` that `table` selects, in the table's order, the first
/// entry's bit being the most significant bit of a `table.len()`-bit result.
pub open spec fn permute(x: u64, table: Seq<u8>, offset: u8) -> u64
    decreases table.len(),
{
    if table.len() == 0 {
        0
    } else {
        (permute(x, table.drop_last(), offset) << 1) | source_bit(x, table.last(), offset)
    }
}

/// Whether `table` lists every position of a `table.len()`-bit field exactly
/// once: its entries lie between 1 and its length, and no two are the same.
pub open spec fn is_full_permutation(table: Seq<u8>) -> bool {
    &&& table.len() <= 64
    &&& forall|i: int| 0 <= i < table.len() ==> 1 <= #[trigger] table[i] <= table.len()
    &&& forall|i: int, k: int|
        0 <= i < k < table.len() ==> #[trigger] table[i] != #[trigger] table[k]
}

/// Whether some entry of `table` is `position`.
pub open spec fn selects(table: Seq<u8>, position: int) -> bool {
    exists|i: int| 0 <= i < table.len() && #[trigger] table[i] == position
}

/// The offset of a table whose source field is as wide as the table is long.
pub open spec fn own_offset(table: Seq<u8>) -> u8 {
    (64 - table.len()) as u8
}

/// The table that undoes `table`: its entry for position `m + 1` is the
/// 1-based place at which `table` lists `m + 1`.
pub open spec fn inverse_table(table: Seq<u8>) -> Seq<u8> {
    Seq::new(
        table.len(),
        |m: int| ((choose|i: int| 0 <= i < table.len() && #[trigger] table[i] == m + 1) + 1) as u8,
    )
}

/// Bit `j` of a permuted register is the bit that entry `len - 1 - j` of the
/// table selects; the bits from `len` upwards are clear.
pub proof fn lemma_permute_bits(x: u64, table: Seq<u8>, offset: u8, j: int)
    requires
        0 <= j < 64,
    ensures
        bit_set(permute(x, table, offset), j) == (j < table.len() && bit_set(
            x,
            source_position(table[table.len() - 1 - j], offset),
        )),
    decreases table.len(),
{
    if table.len() == 0 {
        lemma_zero_bits(j);
    } else {
        let rest = table.drop_last();
        let b = source_bit(x, table.last(), offset);
        lemma_low_bit_range(x, source_position(table.last(), offset) as u64);
        lemma_shift_in(permute(x, rest, offset), b, j);
        if j > 0 {
            lemma_permute_bits(x, rest, offset, j - 1);
        }
    }
}

/// A permuted register is as wide as its table is long.
pub proof fn lemma_permute_width(x: u64, table: Seq<u8>, offset: u8)
    ensures
        fits_width(permute(x, table, offset), table.len() as int),
        table.len() == 32 ==> permute(x, table, offset) <= 0xFFFF_FFFF,
        table.len() == 48 ==> permute(x, table, offset) <= 0xFFFF_FFFF_FFFF,
        table.len() == 56 ==> permute(x, table, offset) <= 0x00FF_FFFF_FFFF_FFFF,
{
    let permuted = permute(x, table, offset);
    assert forall|j: int| table.len() <= j < 64 implies !#[trigger] bit_set(permuted, j) by {
        lemma_permute_bits(x, table, offset, j);
    }
    if table.len() < 64 {
        lemma_high_bits_clear(permuted, table.len() as int);
        lemma_width_bounds(permuted);
    }
}

/// The two 28-bit halves of a right-aligned 56-bit field, upper half first.
pub open spec fn key_halves(key_56: u64) -> (u64, u64) {
    ((key_56 >> 28) & BIT_PAD_28, key_56 & BIT_PAD_28)
}

/// The two 32-bit halves of a block, upper half first.
pub open spec fn block_halves(block: u64) -> (u64, u64) {
    (block >> 32, block & 0xFFFF_FFFF)
}

/// The block with `right` in its upper and `left` in its lower 32 bits: the
/// half-swap that ends the rounds.
pub open spec fn swap_merge(left: u64, right: u64) -> u64 {
    (right << 32) | left
}

/// A 28-bit field `y` rotated left by `k < 28` places within its 28 bits.
pub open spec fn rotate_28_by(y: u64, k: u64) -> u64 {
    ((y << k) | (y >> ((28 - k) as u64))) & BIT_PAD_28
}

/// The low 28 bits of `x` rotated left by `n` places within the 28-bit
/// field. Rotating by nothing leaves `x` as it is, bits above the field
/// included.
pub open spec fn rotate_left_28(x: u64, n: nat) -> u64 {
    if n == 0 {
        x
    } else {
        rotate_28_by(x & BIT_PAD_28, (n % 28) as u64)
    }
}

/// How far the key registers rotate in round `round` (counted from 0): one
/// place in the first, second, ninth and sixteenth round, two in the others.
pub open spec fn rotation_amount(round: int) -> nat {
    if round == 0 || round == 1 || round == 8 || round == 15 {
        1
    } else {
        2
    }
}

/// The pair of key registers after round `round` (counted from 0), started
/// from `(left, right)`: each round rotates both registers of the round
/// before it.
pub open spec fn rotated_pair(left: u64, right: u64, round: int) -> (u64, u64)
    decreases round + 1,
{
    if round < 0 {
        (left, right)
    } else {
        let before = rotated_pair(left, right, round - 1);
        (
            rotate_left_28(before.0, rotation_amount(round)),
            rotate_left_28(before.1, rotation_amount(round)),
        )
    }
}

/// The 48-bit subkey that PC-2 selects from a pair of key registers.
pub open spec fn compress_pair(left: u64, right: u64) -> u64 {
    permute((left << 28) | right, PC_2_TABLE@, 8)
}

/// The subkey of round `round` (counted from 0) under `key`.
pub open spec fn subkey(key: u64, round: int) -> u64 {
    let halves = key_halves(permute(key, PC_1_TABLE@, 0));
    let pair = rotated_pair(halves.0, halves.1, round);
    compress_pair(pair.0, pair.1)
}

/// The sixteen subkeys of `key`, in the order in which encryption uses them.
pub open spec fn key_schedule(key: u64) -> Seq<u64> {
    Seq::new(16, |round: int| subkey(key, round))
}

/// The six-bit group `group` (0 is the most significant) of a right-aligned
/// 48-bit field.
pub open spec fn six_bit_group(x: u64, group: int) -> u64 {
    (x >> ((42 - 6 * group) as u64)) & 0x3F
}

/// The S-box row that a six-bit group selects: its two outer bits.
pub open spec fn sbox_row(group: u64) -> int {
    (if bit_set(group, 5) {
        2int
    } else {
        0int
    }) + (if bit_set(group, 0) {
        1int
    } else {
        0int
    })
}

/// The S-box column that a six-bit group selects: its four middle bits.
pub open spec fn sbox_column(group: u64) -> int {
    ((group >> 1) & 15) as int
}

/// The place of a six-bit group's substitute in a table stored row after row.
pub open spec fn sbox_index(group: u64) -> int {
    sbox_row(group) * 16 + sbox_column(group)
}

/// Entry `index` of S-box `which` (0 for S1 up to 7 for S8).
pub open spec fn sbox_entry(which: int, index: int) -> u64 {
    if which == 0 {
        S1_TABLE[index]
    } else if which == 1 {
        S2_TABLE[index]
    } else if which == 2 {
        S3_TABLE[index]
    } else if which == 3 {
        S4_TABLE[index]
    } else if which == 4 {
        S5_TABLE[index]
    } else if which == 5 {
        S6_TABLE[index]
    } else if which == 6 {
        S7_TABLE[index]
    } else {
        S8_TABLE[index]
    }
}

/// The four bits that S-box `which` puts in place of group `which` of `x`.
pub open spec fn substitute_group(x: u64, which: int) -> u64 {
    sbox_entry(which, sbox_index(six_bit_group(x, which)))
}

/// The substitution layer: each six-bit group of a 48-bit field replaced by
/// four bits, the first group's substitute in the most significant nibble.
pub open spec fn substitute(x: u64) -> u64 {
    (substitute_group(x, 0) << 28) | (substitute_group(x, 1) << 24) | (substitute_group(x, 2)
        << 20) | (substitute_group(x, 3) << 16) | (substitute_group(x, 4) << 12) | (
    substitute_group(x, 5) << 8) | (substitute_group(x, 6) << 4) | substitute_group(x, 7)
}

/// The round function: expand the half to 48 bits, mix in the subkey,
/// substitute, permute.
pub open spec fn round_function(half: u64, subkey: u64) -> u64 {
    permute(substitute(permute(half, E_BIT_SELECTION_TABLE@, 32) ^ subkey), P_TABLE@, 32)
}

/// The round function gives a 32-bit value.
pub proof fn lemma_round_function_width(half: u64, subkey: u64)
    ensures
        round_function(half, subkey) <= 0xFFFF_FFFF,
{
    lemma_permute_width(
        substitute(permute(half, E_BIT_SELECTION_TABLE@, 32) ^ subkey),
        P_TABLE@,
        32,
    );
}

/// Every subkey is a 48-bit value.
pub proof fn lemma_subkey_width(key: u64, round: int)
    ensures
        subkey(key, round) <= 0xFFFF_FFFF_FFFF,
{
    let halves = key_halves(permute(key, PC_1_TABLE@, 0));
    let pair = rotated_pair(halves.0, halves.1, round);
    lemma_permute_width((pair.0 << 28) | pair.1, PC_2_TABLE@, 8);
}

/// One round of the network on a pair of halves.
pub open spec fn feistel_round(left: u64, right: u64, subkey: u64) -> (u64, u64) {
    (right, left ^ round_function(right, subkey))
}

/// The pair of halves after one round for each of `subkeys`, in order.
pub open spec fn feistel(left: u64, right: u64, subkeys: Seq<u64>) -> (u64, u64)
    decreases subkeys.len(),
{
    if subkeys.len() == 0 {
        (left, right)
    } else {
        let before = feistel(left, right, subkeys.drop_last());
        feistel_round(before.0, before.1, subkeys.last())
    }
}

/// The rounds on a whole block: split, one round per subkey, merge with the
/// halves swapped.
pub open spec fn run_rounds(block: u64, subkeys: Seq<u64>) -> u64 {
    let halves = block_halves(block);
    let last = feistel(halves.0, halves.1, subkeys);
    swap_merge(last.0, last.1)
}

/// The ciphertext block of `plaintext` under `key`.
pub open spec fn encrypt(plaintext: u64, key: u64) -> u64 {
    permute(
        run_rounds(permute(plaintext, INITIAL_PERMUTATION_TABLE@, 0), key_schedule(key)),
        INVERSE_PERMUTATION_TABLE@,
        0,
    )
}

/// The plaintext block of `ciphertext` under `key`: the same network with the
/// subkeys in reverse order.
pub open spec fn decrypt(ciphertext: u64, key: u64) -> u64 {
    permute(
        run_rounds(
            permute(ciphertext, INITIAL_PERMUTATION_TABLE@, 0),
            key_schedule(key).reverse(),
        ),
        INVERSE_PERMUTATION_TABLE@,
        0,
    )
}

} // verus!
