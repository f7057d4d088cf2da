//! The trace of a run: one record for the initial permutation, one for each
//! round and one for the final permutation, with every value written as
//! sixteen hexadecimal digits.
//!
//! The trace only observes: nothing in the cipher reads it.

use crate::encrypt::split_permutated_key_64;
use crate::model::{block_halves, feistel, permute, run_rounds};
use crate::permutation_tables::{INITIAL_PERMUTATION_TABLE, INVERSE_PERMUTATION_TABLE};
use vstd::prelude::*;

verus! {

/// One record of the trace, as text ready to be shown.
pub struct DesLog {
    round: String,
    subkey: String,
    l: String,
    r: String,
    value: String,
}

/// What a record holds, as sequences of characters.
pub struct DesLogView {
    /// The step: `IP`, the round's number from 1 to 16, or `IP-1`.
    pub round: Seq<char>,
    /// The round's subkey; empty for the two permutation steps.
    pub subkey: Seq<char>,
    /// The upper 32 bits of the state.
    pub l: Seq<char>,
    /// The lower 32 bits of the state.
    pub r: Seq<char>,
    /// The two halves joined: `l` above `r`.
    pub value: Seq<char>,
}

impl View for DesLog {
    type V = DesLogView;

    closed spec fn view(&self) -> DesLogView {
        DesLogView {
            round: self.round@,
            subkey: self.subkey@,
            l: self.l@,
            r: self.r@,
            value: self.value@,
        }
    }
}

/// The records of a trace, each by its view.
pub open spec fn trace_view(trace: Seq<DesLog>) -> Seq<DesLogView> {
    Seq::new(trace.len(), |i: int| trace[i]@)
}

/// The character that writes the digit `d`, for `0 <= d < 16`: `0` to `9`,
/// then `a` to `f`.
pub open spec fn digit_char(d: int) -> char {
    "0123456789abcdef"@[d]
}

/// `value` as sixteen lower-case hexadecimal digits, most significant first.
pub open spec fn hex_16(value: u64) -> Seq<char> {
    Seq::new(16, |i: int| digit_char(((value >> ((60 - 4 * i) as u64)) & 0xF) as int))
}

/// `n` in decimal, without leading zeros.
pub open spec fn decimal(n: nat) -> Seq<char>
    decreases n,
{
    if n < 10 {
        seq![digit_char(n as int)]
    } else {
        decimal(n / 10).push(digit_char((n % 10) as int))
    }
}

/// The record of the state after the initial permutation.
pub open spec fn ip_record(block: u64) -> DesLogView {
    let halves = block_halves(block);
    DesLogView {
        round: "IP"@,
        subkey: ""@,
        l: hex_16(halves.0),
        r: hex_16(halves.1),
        value: hex_16((halves.0 << 32) | halves.1),
    }
}

/// The record of the state after round `round` (counted from 1).
pub open spec fn round_record(round: nat, subkey: u64, left: u64, right: u64) -> DesLogView {
    DesLogView {
        round: decimal(round),
        subkey: hex_16(subkey),
        l: hex_16(left),
        r: hex_16(right),
        value: hex_16((left << 32) | right),
    }
}

/// The record of the state after the final permutation.
pub open spec fn inverse_ip_record(block: u64) -> DesLogView {
    let halves = block_halves(block);
    DesLogView {
        round: "IP-1"@,
        subkey: ""@,
        l: hex_16(halves.0),
        r: hex_16(halves.1),
        value: hex_16((halves.0 << 32) | halves.1),
    }
}

/// The records of the rounds on the halves `(left, right)`: record `i` shows
/// the subkey of round `i + 1` and the halves after that round.
pub open spec fn rounds_trace(left: u64, right: u64, subkeys: Seq<u64>) -> Seq<DesLogView> {
    Seq::new(
        subkeys.len(),
        |i: int|
            {
                let state = feistel(left, right, subkeys.take(i + 1));
                round_record((i + 1) as nat, subkeys[i], state.0, state.1)
            },
    )
}

/// The whole trace of one block under `subkeys`: the initial permutation,
/// the rounds, the final permutation.
pub open spec fn block_trace(block: u64, subkeys: Seq<u64>) -> Seq<DesLogView> {
    let permuted = permute(block, INITIAL_PERMUTATION_TABLE@, 0);
    let halves = block_halves(permuted);
    let result = permute(run_rounds(permuted, subkeys), INVERSE_PERMUTATION_TABLE@, 0);
    seq![ip_record(permuted)] + rounds_trace(halves.0, halves.1, subkeys) + seq![
        inverse_ip_record(result),
    ]
}

/// Formats with `format!` and the pattern `{:016x}`: lower-case hexadecimal,
/// padded with zeros on the left to sixteen characters. A `u64` has at most
/// sixteen hexadecimal digits, so the text is exactly sixteen characters:
/// digit `i` is the value of bits `63 - 4 * i` down to `60 - 4 * i`.
#[verifier::external_body]
fn hex_16_string(value: u64) -> (text: String)
    ensures
        text@ == hex_16(value),
{
    format!("{:016x}", value)
}

/// Formats with `format!` and the pattern `{}`: for an unsigned integer, its
/// decimal digits without sign, padding or leading zeros.
#[verifier::external_body]
fn decimal_string(value: usize) -> (text: String)
    ensures
        text@ == decimal(value as nat),
{
    format!("{}", value)
}

impl DesLog {
    /// The step that the record describes.
    pub fn round(&self) -> (text: &str)
        ensures
            text@ == self@.round,
    {
        self.round.as_str()
    }

    /// The round's subkey, empty for the two permutation steps.
    pub fn subkey(&self) -> (text: &str)
        ensures
            text@ == self@.subkey,
    {
        self.subkey.as_str()
    }

    /// The upper half of the state.
    pub fn l(&self) -> (text: &str)
        ensures
            text@ == self@.l,
    {
        self.l.as_str()
    }

    /// The lower half of the state.
    pub fn r(&self) -> (text: &str)
        ensures
            text@ == self@.r,
    {
        self.r.as_str()
    }

    /// The two halves joined.
    pub fn value(&self) -> (text: &str)
        ensures
            text@ == self@.value,
    {
        self.value.as_str()
    }
}

/// Appends the record of the state after the initial permutation.
pub fn populate_ip_log_table(
    des_log_table: &mut Vec<DesLog>,
    plaintext_after_init_permutation_block: u64,
)
    ensures
        trace_view(final(des_log_table)@) == trace_view(old(des_log_table)@).push(
            ip_record(plaintext_after_init_permutation_block),
        ),
{
    let (left, right) = split_permutated_key_64(plaintext_after_init_permutation_block);
    let left_ip = hex_16_string(left);
    let right_ip = hex_16_string(right);
    des_log_table.push(
        DesLog {
            round: "IP".to_string(),
            subkey: "".to_string(),
            l: left_ip,
            r: right_ip,
            value: hex_16_string((left << 32) | right),
        },
    );
    assert(trace_view(des_log_table@) =~= trace_view(old(des_log_table)@).push(
        ip_record(plaintext_after_init_permutation_block),
    ));
}

/// Appends the record of the state after round `round` (counted from 1).
pub fn populate_round_log_table(
    des_log_table: &mut Vec<DesLog>,
    round: usize,
    subkey: u64,
    left_block: u64,
    right_block: u64,
)
    ensures
        trace_view(final(des_log_table)@) == trace_view(old(des_log_table)@).push(
            round_record(round as nat, subkey, left_block, right_block),
        ),
{
    des_log_table.push(
        DesLog {
            round: decimal_string(round),
            subkey: hex_16_string(subkey),
            l: hex_16_string(left_block),
            r: hex_16_string(right_block),
            value: hex_16_string((left_block << 32) | right_block),
        },
    );
    assert(trace_view(des_log_table@) =~= trace_view(old(des_log_table)@).push(
        round_record(round as nat, subkey, left_block, right_block),
    ));
}

/// Appends the record of the state after the final permutation.
pub fn populate_inverse_ip_log_table(des_log_table: &mut Vec<DesLog>, final_permutated_block: u64)
    ensures
        trace_view(final(des_log_table)@) == trace_view(old(des_log_table)@).push(
            inverse_ip_record(final_permutated_block),
        ),
{
    let (left_final_permutated_block, right_final_permutated_block) = split_permutated_key_64(
        final_permutated_block,
    );
    des_log_table.push(
        DesLog {
            round: "IP-1".to_string(),
            subkey: "".to_string(),
            l: hex_16_string(left_final_permutated_block),
            r: hex_16_string(right_final_permutated_block),
            value: hex_16_string(
                (left_final_permutated_block << 32) | right_final_permutated_block,
            ),
        },
    );
    assert(trace_view(des_log_table@) =~= trace_view(old(des_log_table)@).push(
        inverse_ip_record(final_permutated_block),
    ));
}

} // verus!
