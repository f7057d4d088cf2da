//! Blocks and keys written as hexadecimal digits.
//!
//! A key is up to sixteen significant digits. A plaintext of any length is
//! cut into blocks of sixteen digits, the last one filled up with `0` on the
//! right.

use vstd::prelude::*;
use vstd::string::{is_ascii_spec_bytes, StrSliceExecFns, StringExecFns};

verus! {

/// Whether `c` is one of `0`-`9`, `a`-`f`, `A`-`F`.
pub open spec fn is_hex_digit(c: char) -> bool {
    ('0' <= c && c <= '9') || ('a' <= c && c <= 'f') || ('A' <= c && c <= 'F')
}

/// Whether a text holds hexadecimal digits and nothing else.
pub open spec fn all_hex_digits(text: Seq<char>) -> bool {
    forall|i: int| 0 <= i < text.len() ==> is_hex_digit(#[trigger] text[i])
}

/// The value of a hexadecimal digit.
pub open spec fn hex_digit_value(c: char) -> int {
    if '0' <= c && c <= '9' {
        c as int - '0' as int
    } else if 'a' <= c && c <= 'f' {
        c as int - 'a' as int + 10
    } else {
        c as int - 'A' as int + 10
    }
}

/// The number that a run of hexadecimal digits writes, most significant
/// digit first.
pub open spec fn hex_number(digits: Seq<char>) -> int
    decreases digits.len(),
{
    if digits.len() == 0 {
        0
    } else {
        16 * hex_number(digits.drop_last()) + hex_digit_value(digits.last())
    }
}

/// The 64-bit value of a text: it has one for at least one digit, nothing
/// but hexadecimal digits, and a number that fits in 64 bits.
pub open spec fn parse_hex(text: Seq<char>) -> Option<u64> {
    if text.len() > 0 && all_hex_digits(text) && hex_number(text) <= u64::MAX {
        Some(hex_number(text) as u64)
    } else {
        None
    }
}

/// How many blocks of sixteen digits a text of `len` digits fills.
pub open spec fn block_count(len: nat) -> nat {
    (len + 15) / 16
}

/// Block `index` of a text: its digits from `16 * index` on, sixteen of them
/// or as many as are left, filled up with `0` on the right to sixteen.
pub open spec fn padded_block(text: Seq<char>, index: int) -> Seq<char> {
    let end = if 16 * index + 16 <= text.len() {
        16 * index + 16
    } else {
        text.len() as int
    };
    let chunk = text.subrange(16 * index, end);
    chunk + Seq::new((16 - chunk.len()) as nat, |i: int| '0')
}

/// Sixteen to the power `n`.
pub open spec fn sixteen_to(n: nat) -> nat
    decreases n,
{
    if n == 0 {
        1
    } else {
        16 * sixteen_to((n - 1) as nat)
    }
}

/// A run of `n` hexadecimal digits writes a number below sixteen to the
/// power `n`.
pub proof fn lemma_hex_number_bound(digits: Seq<char>)
    requires
        all_hex_digits(digits),
    ensures
        0 <= hex_number(digits) < sixteen_to(digits.len()),
    decreases digits.len(),
{
    if digits.len() > 0 {
        assert(is_hex_digit(digits.last()));
        lemma_hex_number_bound(digits.drop_last());
    }
}

proof fn lemma_sixteen_to_grows(a: nat, b: nat)
    requires
        a <= b,
    ensures
        0 < sixteen_to(a) <= sixteen_to(b),
    decreases b,
{
    if b == 0 {
    } else if a == b {
        lemma_sixteen_to_grows(0, (b - 1) as nat);
    } else {
        lemma_sixteen_to_grows(a, (b - 1) as nat);
    }
}

/// Up to sixteen hexadecimal digits always have a 64-bit value.
pub proof fn lemma_sixteen_digits_fit(digits: Seq<char>)
    requires
        all_hex_digits(digits),
        1 <= digits.len() <= 16,
    ensures
        parse_hex(digits) is Some,
{
    lemma_hex_number_bound(digits);
    lemma_sixteen_to_grows(digits.len(), 16);
    assert(sixteen_to(16) == 0x1_0000_0000_0000_0000) by {
        reveal_with_fuel(sixteen_to, 17);
    }
}

/// Every block of a text of hexadecimal digits is sixteen hexadecimal
/// digits, and so has a 64-bit value.
pub proof fn lemma_block_has_value(text: Seq<char>, index: int)
    requires
        all_hex_digits(text),
        0 <= index < block_count(text.len()),
    ensures
        padded_block(text, index).len() == 16,
        all_hex_digits(padded_block(text, index)),
        parse_hex(padded_block(text, index)) is Some,
{
    let block = padded_block(text, index);
    assert forall|i: int| 0 <= i < block.len() implies is_hex_digit(#[trigger] block[i]) by {
        if 16 * index + i < text.len() {
            assert(block[i] == text[16 * index + i]);
        } else {
            assert(block[i] == '0');
        }
    }
    lemma_sixteen_digits_fit(block);
}

/// The value of the hexadecimal digit with ASCII code `byte`, if it is one.
fn hex_digit_of_byte(byte: u8) -> (digit: Option<u64>)
    ensures
        digit is Some <==> is_hex_digit(byte as char),
        digit matches Some(d) ==> d == hex_digit_value(byte as char) && d < 16,
{
    if byte >= 0x30 && byte <= 0x39 {
        Some((byte - 0x30) as u64)
    } else if byte >= 0x61 && byte <= 0x66 {
        Some((byte - 0x61 + 10) as u64)
    } else if byte >= 0x41 && byte <= 0x46 {
        Some((byte - 0x41 + 10) as u64)
    } else {
        None
    }
}

/// Whether every character of `s` is a hexadecimal digit.
pub fn check_string_is_ascii_hexdigit(s: String) -> (all: bool)
    ensures
        all == all_hex_digits(s@),
{
    let text = s.as_str();
    if !text.is_ascii() {
        proof {
            let i = choose|i: int| 0 <= i < text@.len() && !('\0' <= #[trigger] text@[i] <= '\u{7f}');
            assert(!is_hex_digit(text@[i]));
        }
        return false;
    }
    let bytes = text.as_bytes();
    proof {
        is_ascii_spec_bytes(text);
    }
    for i in 0..bytes.len()
        invariant
            s@ == text@,
            bytes@ == Seq::new(text@.len(), |k: int| text@[k] as u8),
            vstd::string::is_ascii(text),
            forall|k: int| 0 <= k < i ==> is_hex_digit(#[trigger] text@[k]),
    {
        assert('\0' <= text@[i as int] <= '\u{7f}');
        assert(bytes[i as int] as char == text@[i as int]);
        if hex_digit_of_byte(bytes[i]).is_none() {
            assert(!is_hex_digit(s@[i as int]));
            return false;
        }
    }
    true
}

/// The number of a run of hexadecimal digits is not negative and not below
/// the number of any of its beginnings.
proof fn lemma_hex_number_grows(digits: Seq<char>, i: int)
    requires
        all_hex_digits(digits),
        0 <= i <= digits.len(),
    ensures
        0 <= hex_number(digits.take(i)) <= hex_number(digits),
    decreases digits.len(),
{
    if i == digits.len() {
        assert(digits.take(i) =~= digits);
        if digits.len() > 0 {
            assert(is_hex_digit(digits.last()));
            lemma_hex_number_grows(digits.drop_last(), digits.len() - 1);
            assert(digits.drop_last().take(digits.len() - 1) =~= digits.drop_last());
        }
    } else {
        assert(is_hex_digit(digits.last()));
        lemma_hex_number_grows(digits.drop_last(), i);
        assert(digits.drop_last().take(i) =~= digits.take(i));
    }
}

/// Reads a text of hexadecimal digits as a 64-bit value: `None` for an empty
/// text, for a character that is no hexadecimal digit, and for a number
/// beyond 64 bits.
pub fn parse_hex_block(text: &str) -> (parsed: Option<u64>)
    ensures
        parsed == parse_hex(text@),
{
    if !check_string_is_ascii_hexdigit(text.to_owned()) {
        return None;
    }
    assert(vstd::string::is_ascii(text)) by {
        assert forall|i: int| 0 <= i < text@.len() implies '\0' <= #[trigger] text@[i]
            <= '\u{7f}' by {
            assert(is_hex_digit(text@[i]));
        }
    }
    let bytes = text.as_bytes();
    proof {
        is_ascii_spec_bytes(text);
    }
    if bytes.len() == 0 {
        return None;
    }
    let mut value: u64 = 0;
    assert(text@.take(0) =~= Seq::<char>::empty());
    for i in 0..bytes.len()
        invariant
            bytes@ == Seq::new(text@.len(), |k: int| text@[k] as u8),
            all_hex_digits(text@),
            value == hex_number(text@.take(i as int)),
    {
        let ghost c = text@[i as int];
        assert(is_hex_digit(c));
        assert(bytes[i as int] as char == c);
        let digit: u64 = hex_digit_of_byte(bytes[i]).unwrap();
        proof {
            let read = text@.take(i + 1);
            assert(read.drop_last() =~= text@.take(i as int));
            assert(read.last() == c);
            assert(hex_number(read) == 16 * value + digit);
            lemma_hex_number_grows(text@, i + 1);
        }
        if value > 0x0FFF_FFFF_FFFF_FFFF {
            return None;
        }
        value = value * 16 + digit;
    }
    assert(text@.take(text@.len() as int) =~= text@);
    Some(value)
}

/// Cuts a text of digits into blocks of sixteen, the last one filled up with
/// `0` on the right.
pub fn plaintext_blocks(plaintext_input: &str) -> (blocks: Vec<String>)
    requires
        vstd::string::is_ascii(plaintext_input),
    ensures
        blocks@.len() == block_count(plaintext_input@.len()),
        forall|i: int|
            0 <= i < blocks@.len() ==> (#[trigger] blocks@[i])@ == padded_block(
                plaintext_input@,
                i,
            ),
        all_hex_digits(plaintext_input@) ==> forall|i: int|
            0 <= i < blocks@.len() ==> parse_hex((#[trigger] blocks@[i])@) is Some,
{
    let len: usize = plaintext_input.as_bytes().len();
    proof {
        is_ascii_spec_bytes(plaintext_input);
    }
    let mut blocks: Vec<String> = Vec::new();
    let mut start: usize = 0;
    while start < len
        invariant
            vstd::string::is_ascii(plaintext_input),
            len == plaintext_input@.len(),
            start <= len,
            start == len || start == 16 * blocks@.len(),
            blocks@.len() == 0 || 16 * (blocks@.len() - 1) < len,
            16 * blocks@.len() >= start,
            forall|i: int|
                0 <= i < blocks@.len() ==> (#[trigger] blocks@[i])@ == padded_block(
                    plaintext_input@,
                    i,
                ),
        decreases len - start,
    {
        let end: usize = if len - start >= 16 {
            start + 16
        } else {
            len
        };
        let chunk = plaintext_input.substring_ascii(start, end);
        let mut block: String = String::from_str(chunk);
        let mut filled: usize = end - start;
        let ghost digits = chunk@;
        while filled < 16
            invariant
                filled <= 16,
                digits.len() <= 16,
                digits.len() <= filled,
                block@ == digits + Seq::new((filled - digits.len()) as nat, |i: int| '0'),
            decreases 16 - filled,
        {
            proof {
                reveal_strlit("0");
            }
            let ghost before = block@;
            block.append("0");
            filled = filled + 1;
            assert(block@ =~= digits + Seq::new((filled - digits.len()) as nat, |i: int| '0'));
        }
        proof {
            assert(block@ == padded_block(plaintext_input@, blocks@.len() as int));
        }
        blocks.push(block);
        start = end;
    }
    proof {
        if all_hex_digits(plaintext_input@) {
            assert forall|i: int| 0 <= i < blocks@.len() implies parse_hex(
                (#[trigger] blocks@[i])@,
            ) is Some by {
                lemma_block_has_value(plaintext_input@, i);
            }
        }
    }
    blocks
}

} // verus!
