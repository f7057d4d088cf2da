//! What holds of the cipher for every block and every key.

use crate::bits::{bit_set, fits_width, lemma_bits_determine_value};
use crate::model::{
    block_halves, decrypt, encrypt, feistel, feistel_round, inverse_table, is_full_permutation,
    key_schedule, lemma_permute_bits, lemma_permute_width, lemma_round_function_width,
    own_offset, permute, rotation_amount, round_function, run_rounds, selects, swap_merge,
};
use crate::permutation_tables::{
    INITIAL_PERMUTATION_TABLE, INVERSE_PERMUTATION_TABLE, PC1_SHIFT_SIZES, P_TABLE,
};
use vstd::prelude::*;

verus! {

/// The final permutation undoes the initial one, and the initial permutation
/// undoes the final one.
pub proof fn lemma_initial_and_final_permutation_cancel(x: u64)
    ensures
        permute(
            permute(x, INITIAL_PERMUTATION_TABLE@, 0),
            INVERSE_PERMUTATION_TABLE@,
            0,
        ) == x,
        permute(
            permute(x, INVERSE_PERMUTATION_TABLE@, 0),
            INITIAL_PERMUTATION_TABLE@,
            0,
        ) == x,
{
    let ip = INITIAL_PERMUTATION_TABLE@;
    let inv = INVERSE_PERMUTATION_TABLE@;
    let forth = permute(x, ip, 0);
    let back = permute(x, inv, 0);
    assert forall|j: int| 0 <= j < 64 implies bit_set(permute(forth, inv, 0), j) == bit_set(
        x,
        j,
    ) by {
        lemma_permute_bits(forth, inv, 0, j);
        lemma_permute_bits(x, ip, 0, 64 - inv[63 - j]);
    }
    lemma_bits_determine_value(permute(forth, inv, 0), x);
    assert forall|j: int| 0 <= j < 64 implies bit_set(permute(back, ip, 0), j) == bit_set(
        x,
        j,
    ) by {
        lemma_permute_bits(back, ip, 0, j);
        lemma_permute_bits(x, inv, 0, 64 - ip[63 - j]);
    }
    lemma_bits_determine_value(permute(back, ip, 0), x);
}

proof fn lemma_halves(block: u64, left: u64, right: u64)
    by (bit_vector)
    ensures
        block >> 32 <= 0xFFFF_FFFF,
        block & 0xFFFF_FFFF <= 0xFFFF_FFFF,
        ((block >> 32) << 32) | (block & 0xFFFF_FFFF) == block,
        left <= 0xFFFF_FFFF && right <= 0xFFFF_FFFF ==> ((right << 32) | left) >> 32 == right && ((
        right << 32) | left) & 0xFFFF_FFFF == left && left ^ right <= 0xFFFF_FFFF,
        (left ^ right) ^ right == left,
{
}

/// Rounds keep 32-bit halves 32 bits wide.
pub proof fn lemma_feistel_width(left: u64, right: u64, subkeys: Seq<u64>)
    requires
        left <= 0xFFFF_FFFF,
        right <= 0xFFFF_FFFF,
    ensures
        feistel(left, right, subkeys).0 <= 0xFFFF_FFFF,
        feistel(left, right, subkeys).1 <= 0xFFFF_FFFF,
    decreases subkeys.len(),
{
    if subkeys.len() > 0 {
        lemma_feistel_width(left, right, subkeys.drop_last());
        let before = feistel(left, right, subkeys.drop_last());
        lemma_round_function_width(before.1, subkeys.last());
        lemma_halves(0, before.0, round_function(before.1, subkeys.last()));
    }
}

/// The rounds may as well be taken from the front: the first subkey's round,
/// then the rounds of the others.
pub proof fn lemma_feistel_first_round(left: u64, right: u64, subkeys: Seq<u64>)
    requires
        subkeys.len() > 0,
    ensures
        feistel(left, right, subkeys) == feistel(
            feistel_round(left, right, subkeys[0]).0,
            feistel_round(left, right, subkeys[0]).1,
            subkeys.skip(1),
        ),
    decreases subkeys.len(),
{
    let first = feistel_round(left, right, subkeys[0]);
    let earlier = subkeys.drop_last();
    let rest = subkeys.skip(1);
    if subkeys.len() == 1 {
        assert(feistel(left, right, earlier) == (left, right));
        assert(feistel(first.0, first.1, rest) == first);
    } else {
        lemma_feistel_first_round(left, right, earlier);
        assert(earlier[0] == subkeys[0]);
        assert(earlier.skip(1) =~= rest.drop_last());
        assert(rest.last() == subkeys.last());
        assert(feistel(first.0, first.1, rest) == feistel_round(
            feistel(first.0, first.1, rest.drop_last()).0,
            feistel(first.0, first.1, rest.drop_last()).1,
            rest.last(),
        ));
    }
}

/// Running the rounds on the swapped result with the subkeys in reverse
/// order gives back the halves that the rounds started from, swapped.
pub proof fn lemma_feistel_inverts(left: u64, right: u64, subkeys: Seq<u64>)
    ensures
        feistel(
            feistel(left, right, subkeys).1,
            feistel(left, right, subkeys).0,
            subkeys.reverse(),
        ) == (right, left),
    decreases subkeys.len(),
{
    if subkeys.len() == 0 {
        assert(subkeys.reverse() =~= Seq::<u64>::empty());
    } else {
        let earlier = subkeys.drop_last();
        let k = subkeys.last();
        let before = feistel(left, right, earlier);
        let after = feistel(left, right, subkeys);
        let backwards = subkeys.reverse();
        assert(backwards[0] == k);
        assert(backwards.skip(1) =~= earlier.reverse());
        lemma_feistel_first_round(after.1, after.0, backwards);
        lemma_halves(0, before.0, round_function(before.1, k));
        assert(feistel_round(after.1, after.0, k) == (before.1, before.0));
        lemma_feistel_inverts(left, right, earlier);
    }
}

/// The rounds with the subkeys in reverse order undo the rounds.
pub proof fn lemma_rounds_invert(block: u64, subkeys: Seq<u64>)
    ensures
        run_rounds(run_rounds(block, subkeys), subkeys.reverse()) == block,
{
    let halves = block_halves(block);
    let last = feistel(halves.0, halves.1, subkeys);
    lemma_halves(block, 0, 0);
    lemma_feistel_width(halves.0, halves.1, subkeys);
    lemma_halves(0, last.0, last.1);
    assert(block_halves(swap_merge(last.0, last.1)) == (last.1, last.0));
    lemma_feistel_inverts(halves.0, halves.1, subkeys);
}

/// Decryption undoes encryption: for every block and every key, decrypting
/// the ciphertext under the same key gives the plaintext back.
pub proof fn lemma_decrypt_inverts_encrypt(plaintext: u64, key: u64)
    ensures
        decrypt(encrypt(plaintext, key), key) == plaintext,
{
    let subkeys = key_schedule(key);
    let start = permute(plaintext, INITIAL_PERMUTATION_TABLE@, 0);
    let end = run_rounds(start, subkeys);
    lemma_initial_and_final_permutation_cancel(end);
    lemma_rounds_invert(start, subkeys);
    lemma_initial_and_final_permutation_cancel(plaintext);
}

/// Encryption undoes decryption: the two are inverse to each other.
pub proof fn lemma_encrypt_inverts_decrypt(ciphertext: u64, key: u64)
    ensures
        encrypt(decrypt(ciphertext, key), key) == ciphertext,
{
    let backwards = key_schedule(key).reverse();
    let start = permute(ciphertext, INITIAL_PERMUTATION_TABLE@, 0);
    let end = run_rounds(start, backwards);
    assert(backwards.reverse() =~= key_schedule(key));
    lemma_initial_and_final_permutation_cancel(end);
    lemma_rounds_invert(start, backwards);
    lemma_initial_and_final_permutation_cancel(ciphertext);
}

/// A full permutation selects every position of its field: with as many
/// entries as positions and no entry twice, none is left out.
pub proof fn lemma_full_permutation_selects_all(table: Seq<u8>, position: int)
    requires
        forall|i: int| 0 <= i < table.len() ==> 1 <= #[trigger] table[i] <= table.len(),
        forall|i: int, k: int|
            0 <= i < k < table.len() ==> #[trigger] table[i] != #[trigger] table[k],
        1 <= position <= table.len(),
    ensures
        selects(table, position),
    decreases table.len(),
{
    let n = table.len() as int;
    if selects(table, n) {
        let p = choose|i: int| 0 <= i < table.len() && #[trigger] table[i] == n;
        if position != n {
            let rest = table.remove(p);
            assert forall|i: int| 0 <= i < rest.len() implies 1 <= #[trigger] rest[i]
                <= rest.len() by {
                let at = if i < p {
                    i
                } else {
                    i + 1
                };
                assert(rest[i] == table[at]);
                assert(table[at] != table[p]);
            }
            assert forall|i: int, k: int| 0 <= i < k < rest.len() implies #[trigger] rest[i]
                != #[trigger] rest[k] by {
                let at_i = if i < p {
                    i
                } else {
                    i + 1
                };
                let at_k = if k < p {
                    k
                } else {
                    k + 1
                };
                assert(rest[i] == table[at_i]);
                assert(rest[k] == table[at_k]);
            }
            lemma_full_permutation_selects_all(rest, position);
            let q = choose|i: int| 0 <= i < rest.len() && #[trigger] rest[i] == position;
            let at = if q < p {
                q
            } else {
                q + 1
            };
            assert(table[at] == position);
        }
    } else {
        let rest = table.drop_last();
        let last = table.last() as int;
        assert(table[n - 1] != n);
        assert forall|i: int| 0 <= i < rest.len() implies 1 <= #[trigger] rest[i]
            <= rest.len() by {
            assert(rest[i] == table[i]);
            assert(table[i] != n);
        }
        assert forall|i: int, k: int| 0 <= i < k < rest.len() implies #[trigger] rest[i]
            != #[trigger] rest[k] by {
            assert(rest[i] == table[i]);
            assert(rest[k] == table[k]);
        }
        lemma_full_permutation_selects_all(rest, last);
        let q = choose|i: int| 0 <= i < rest.len() && #[trigger] rest[i] == last;
        assert(table[q] == table[n - 1]);
        assert(false);
    }
}

/// A full permutation loses nothing: two registers with the same image
/// under it hold the same field.
pub proof fn lemma_full_permutation_is_injective(x: u64, y: u64, table: Seq<u8>)
    requires
        is_full_permutation(table),
        permute(x, table, own_offset(table)) == permute(y, table, own_offset(table)),
    ensures
        forall|j: int| 0 <= j < table.len() ==> bit_set(x, j) == bit_set(y, j),
        fits_width(x, table.len() as int) && fits_width(y, table.len() as int) ==> x == y,
{
    let width = table.len() as int;
    let offset = own_offset(table);
    assert forall|j: int| 0 <= j < width implies bit_set(x, j) == bit_set(y, j) by {
        lemma_full_permutation_selects_all(table, width - j);
        let i = choose|i: int| 0 <= i < table.len() && #[trigger] table[i] == width - j;
        lemma_permute_bits(x, table, offset, width - 1 - i);
        lemma_permute_bits(y, table, offset, width - 1 - i);
    }
    if fits_width(x, width) && fits_width(y, width) {
        lemma_bits_determine_value(x, y);
    }
}

/// The inverse of a full permutation is a full permutation, and each of the
/// two tables names the place of a position in the other.
pub proof fn lemma_inverse_table(table: Seq<u8>)
    requires
        is_full_permutation(table),
    ensures
        is_full_permutation(inverse_table(table)),
        forall|m: int|
            0 <= m < table.len() ==> table[#[trigger] inverse_table(table)[m] - 1] == m + 1,
        forall|i: int|
            0 <= i < table.len() ==> inverse_table(table)[#[trigger] table[i] - 1] == i + 1,
{
    let inverse = inverse_table(table);
    assert forall|m: int| 0 <= m < table.len() implies 1 <= #[trigger] inverse[m] <= table.len()
        && table[inverse[m] - 1] == m + 1 by {
        lemma_full_permutation_selects_all(table, m + 1);
    }
    assert forall|i: int| 0 <= i < table.len() implies inverse[#[trigger] table[i] - 1] == i
        + 1 by {
        let m = table[i] - 1;
        assert(table[inverse[m] - 1] == m + 1);
    }
    assert forall|m: int, k: int| 0 <= m < k < inverse.len() implies #[trigger] inverse[m]
        != #[trigger] inverse[k] by {
        assert(table[inverse[m] - 1] == m + 1);
        assert(table[inverse[k] - 1] == k + 1);
    }
}

/// A full permutation is a bijection on the fields of its width: permuting
/// by the table and then by its inverse, or the other way round, gives the
/// field back.
pub proof fn lemma_full_permutation_is_bijection(x: u64, table: Seq<u8>)
    requires
        is_full_permutation(table),
        fits_width(x, table.len() as int),
    ensures
        permute(permute(x, table, own_offset(table)), inverse_table(table), own_offset(table))
            == x,
        permute(permute(x, inverse_table(table), own_offset(table)), table, own_offset(table))
            == x,
        fits_width(permute(x, table, own_offset(table)), table.len() as int),
{
    let width = table.len() as int;
    let offset = own_offset(table);
    let inverse = inverse_table(table);
    let forth = permute(x, table, offset);
    let back = permute(x, inverse, offset);
    lemma_inverse_table(table);
    assert forall|j: int| 0 <= j < 64 implies bit_set(permute(forth, inverse, offset), j)
        == bit_set(x, j) by {
        lemma_permute_bits(forth, inverse, offset, j);
        if j < width {
            lemma_permute_bits(x, table, offset, width - inverse[width - 1 - j]);
        }
    }
    lemma_bits_determine_value(permute(forth, inverse, offset), x);
    assert forall|j: int| 0 <= j < 64 implies bit_set(permute(back, table, offset), j)
        == bit_set(x, j) by {
        lemma_permute_bits(back, table, offset, j);
        if j < width {
            lemma_permute_bits(x, inverse, offset, width - table[width - 1 - j]);
        }
    }
    lemma_bits_determine_value(permute(back, table, offset), x);
    lemma_permute_width(x, table, offset);
}

/// The initial permutation, the final permutation and the permutation P of
/// the round function are full permutations.
pub proof fn lemma_standard_permutations()
    ensures
        is_full_permutation(INITIAL_PERMUTATION_TABLE@),
        is_full_permutation(INVERSE_PERMUTATION_TABLE@),
        is_full_permutation(P_TABLE@),
{
}

/// The rotation schedule: the key registers rotate by one place in the
/// first, second, ninth and sixteenth round and by two places in every other
/// round.
pub proof fn lemma_rotation_schedule()
    ensures
        forall|round: int|
            0 <= round < 16 ==> #[trigger] PC1_SHIFT_SIZES[round] == rotation_amount(round),
        forall|round: int|
            0 <= round < 16 ==> (#[trigger] PC1_SHIFT_SIZES[round] == 1 <==> (round == 0 || round
                == 1 || round == 8 || round == 15)),
        forall|round: int|
            0 <= round < 16 ==> (#[trigger] PC1_SHIFT_SIZES[round] == 2 <==> !(round == 0 || round
                == 1 || round == 8 || round == 15)),
{
}

} // verus!
