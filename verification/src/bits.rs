//! Registers seen bit by bit.
//!
//! Bit `0` of a register is its least significant bit. The lemmas here are
//! the bridge between the shifts and masks of the executable code and
//! statements about single bits.

use vstd::prelude::*;

verus! {

/// Whether bit `i` of `x` is set, for `0 <= i < 64`.
pub open spec fn bit_set(x: u64, i: int) -> bool {
    (x >> (i as u64)) & 1 == 1
}

/// Whether `x` holds a field of `width` bits: every bit from `width` upwards
/// is clear.
pub open spec fn fits_width(x: u64, width: int) -> bool {
    forall|i: int| width <= i < 64 ==> !#[trigger] bit_set(x, i)
}

proof fn lemma_shr_top(a: u64, b: u64)
    by (bit_vector)
    requires
        ((a >> 63) & 1 == 1) == ((b >> 63) & 1 == 1),
    ensures
        a >> 63 == b >> 63,
{
}

proof fn lemma_shr_step(a: u64, b: u64, k: u64)
    by (bit_vector)
    requires
        k < 63,
        a >> ((k + 1) as u64) == b >> ((k + 1) as u64),
        ((a >> k) & 1 == 1) == ((b >> k) & 1 == 1),
    ensures
        a >> k == b >> k,
{
}

proof fn lemma_shr_zero(a: u64)
    by (bit_vector)
    ensures
        a >> 0 == a,
{
}

/// Two registers that agree in every bit from `k` upwards are equal once
/// shifted down by `k`.
pub proof fn lemma_agree_from(a: u64, b: u64, k: int)
    requires
        0 <= k < 64,
        forall|i: int| k <= i < 64 ==> bit_set(a, i) == bit_set(b, i),
    ensures
        a >> (k as u64) == b >> (k as u64),
    decreases 64 - k,
{
    assert(bit_set(a, k) == bit_set(b, k));
    if k == 63 {
        lemma_shr_top(a, b);
    } else {
        lemma_agree_from(a, b, k + 1);
        lemma_shr_step(a, b, k as u64);
    }
}

/// A register is determined by its 64 bits.
pub proof fn lemma_bits_determine_value(a: u64, b: u64)
    requires
        forall|i: int| 0 <= i < 64 ==> bit_set(a, i) == bit_set(b, i),
    ensures
        a == b,
{
    lemma_agree_from(a, b, 0);
    lemma_shr_zero(a);
    lemma_shr_zero(b);
}

proof fn lemma_shift_in_u64(p: u64, b: u64, j: u64)
    by (bit_vector)
    requires
        j < 64,
        b <= 1,
    ensures
        ((((p << 1) | b) >> j) & 1 == 1) == (if j == 0 {
            b == 1
        } else {
            (p >> ((j - 1) as u64)) & 1 == 1
        }),
{
}

/// Shifting a register up by one and putting `b` below it moves every bit
/// one place up.
pub proof fn lemma_shift_in(p: u64, b: u64, j: int)
    requires
        0 <= j < 64,
        b <= 1,
    ensures
        bit_set((p << 1) | b, j) == (if j == 0 {
            b == 1
        } else {
            bit_set(p, j - 1)
        }),
{
    lemma_shift_in_u64(p, b, j as u64);
}

proof fn lemma_set_bit_u64(acc: u64, b: u64, k: u64, j: u64)
    by (bit_vector)
    requires
        j < 64,
        k < 64,
        b <= 1,
    ensures
        (((acc | (b << k)) >> j) & 1 == 1) == (((acc >> j) & 1 == 1) || (j == k && b == 1)),
{
}

/// Or-ing a single bit `b` into place `k` changes no other place.
pub proof fn lemma_set_bit(acc: u64, b: u64, k: int, j: int)
    requires
        0 <= j < 64,
        0 <= k < 64,
        b <= 1,
    ensures
        bit_set(acc | (b << (k as u64)), j) == (bit_set(acc, j) || (j == k && b == 1)),
{
    lemma_set_bit_u64(acc, b, k as u64, j as u64);
}

/// The register with no bit set.
pub proof fn lemma_zero_bits(j: int)
    requires
        0 <= j < 64,
    ensures
        !bit_set(0, j),
{
    let ju = j as u64;
    assert((0u64 >> ju) & 1 == 0) by (bit_vector);
}

/// The lowest bit of a shifted register is 0 or 1.
pub proof fn lemma_low_bit_range(x: u64, s: u64)
    by (bit_vector)
    ensures
        (x >> s) & 1 <= 1,
{
}

proof fn lemma_zero_shifted(k: u64)
    by (bit_vector)
    ensures
        0u64 >> k == 0,
{
}

/// A register whose bits from `width` upwards are clear holds a
/// `width`-bit field.
pub proof fn lemma_high_bits_clear(x: u64, width: int)
    requires
        0 <= width < 64,
        fits_width(x, width),
    ensures
        x >> (width as u64) == 0,
{
    assert forall|i: int| width <= i < 64 implies bit_set(x, i) == bit_set(0, i) by {
        lemma_zero_bits(i);
    }
    lemma_agree_from(x, 0, width);
    lemma_zero_shifted(width as u64);
}

/// What a field of 28, 32, 48 or 56 bits is at most.
pub proof fn lemma_width_bounds(x: u64)
    by (bit_vector)
    ensures
        x >> 28 == 0 ==> x <= 0x0FFF_FFFF,
        x >> 32 == 0 ==> x <= 0xFFFF_FFFF,
        x >> 48 == 0 ==> x <= 0xFFFF_FFFF_FFFF,
        x >> 56 == 0 ==> x <= 0x00FF_FFFF_FFFF_FFFF,
{
}

} // verus!
