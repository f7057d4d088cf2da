use des_cipher::encrypt::{des_decrypt, des_encrypt, get_subkeys};
use des_cipher::hex::{check_string_is_ascii_hexdigit, parse_hex_block, plaintext_blocks};

#[test]
fn hex_digits_are_recognised() {
    assert!(check_string_is_ascii_hexdigit("0123456789abcdefABCDEF".to_string()));
    assert!(check_string_is_ascii_hexdigit("".to_string()));
    assert!(!check_string_is_ascii_hexdigit("0123456789abcdefg".to_string()));
    assert!(!check_string_is_ascii_hexdigit("12 34".to_string()));
    assert!(!check_string_is_ascii_hexdigit("+12".to_string()));
    assert!(!check_string_is_ascii_hexdigit("0x12".to_string()));
    assert!(!check_string_is_ascii_hexdigit("12\u{e9}".to_string()));
    assert!(!check_string_is_ascii_hexdigit("/".to_string()));
    assert!(!check_string_is_ascii_hexdigit(":".to_string()));
    assert!(!check_string_is_ascii_hexdigit("@".to_string()));
    assert!(!check_string_is_ascii_hexdigit("G".to_string()));
    assert!(!check_string_is_ascii_hexdigit("`".to_string()));
}

#[test]
fn hex_text_is_read_as_a_number() {
    assert_eq!(parse_hex_block("0"), Some(0));
    assert_eq!(parse_hex_block("f"), Some(15));
    assert_eq!(parse_hex_block("F"), Some(15));
    assert_eq!(parse_hex_block("10"), Some(16));
    assert_eq!(parse_hex_block("0123456789ABCDEF"), Some(0x0123456789ABCDEF));
    assert_eq!(parse_hex_block("0123456789abcdef"), Some(0x0123456789ABCDEF));
    assert_eq!(parse_hex_block("aBcDeF"), Some(0xABCDEF));
    assert_eq!(parse_hex_block("ffffffffffffffff"), Some(u64::MAX));
}

#[test]
fn hex_text_with_leading_zeros_may_be_longer_than_sixteen_digits() {
    assert_eq!(parse_hex_block("00000000000000001"), Some(1));
    assert_eq!(parse_hex_block("000ffffffffffffffff"), Some(u64::MAX));
}

#[test]
fn hex_text_beyond_64_bits_is_rejected() {
    assert_eq!(parse_hex_block("10000000000000000"), None);
    assert_eq!(parse_hex_block("ffffffffffffffff0"), None);
    assert_eq!(parse_hex_block("123456789abcdef0123456789abcdef"), None);
}

#[test]
fn malformed_hex_text_is_rejected() {
    assert_eq!(parse_hex_block(""), None);
    assert_eq!(parse_hex_block("g"), None);
    assert_eq!(parse_hex_block("12 "), None);
    assert_eq!(parse_hex_block("+12"), None);
    assert_eq!(parse_hex_block("-12"), None);
    assert_eq!(parse_hex_block("0x12"), None);
    assert_eq!(parse_hex_block("12\u{e9}"), None);
    assert_eq!(parse_hex_block("10000000000000000g"), None);
}

#[test]
fn parsing_agrees_with_the_standard_library() {
    let texts = ["0", "7f", "DEADBEEF", "0123456789ABCDEF", "ffffffffffffffff", "0000000a"];
    for text in texts {
        assert_eq!(parse_hex_block(text), u64::from_str_radix(text, 16).ok());
    }
}

#[test]
fn short_plaintext_is_one_padded_block() {
    assert_eq!(plaintext_blocks("abc"), vec!["abc0000000000000".to_string()]);
    assert_eq!(plaintext_blocks("1"), vec!["1000000000000000".to_string()]);
}

#[test]
fn empty_plaintext_has_no_block() {
    assert_eq!(plaintext_blocks(""), Vec::<String>::new());
}

#[test]
fn sixteen_digits_are_one_block() {
    assert_eq!(plaintext_blocks("0123456789ABCDEF"), vec!["0123456789ABCDEF".to_string()]);
}

#[test]
fn long_plaintext_is_cut_every_sixteen_digits() {
    assert_eq!(
        plaintext_blocks("0123456789abcdef01"),
        vec!["0123456789abcdef".to_string(), "0100000000000000".to_string()]
    );
    assert_eq!(
        plaintext_blocks("0123456789abcdeffedcba9876543210"),
        vec!["0123456789abcdef".to_string(), "fedcba9876543210".to_string()]
    );
    let blocks = plaintext_blocks("0123456789abcdeffedcba98765432100123456789abcde");
    assert_eq!(blocks.len(), 3);
    assert_eq!(blocks[2], "0123456789abcde0");
}

#[test]
fn blocks_of_a_text_are_encrypted_one_by_one() {
    let key = "133457799BBCDFF1".to_string();
    let blocks = plaintext_blocks("0123456789ABCDEF0123");
    assert_eq!(blocks.len(), 2);
    assert_eq!(des_encrypt(blocks[0].clone(), key.clone()), 0x85E813540F0AB405);
    let second = des_encrypt(blocks[1].clone(), key.clone());
    assert_eq!(des_decrypt(format!("{:016x}", second), key), 0x0123000000000000);
}

#[test]
fn short_key_text_is_a_small_number() {
    assert_eq!(get_subkeys("0".to_string()), [0u64; 16]);
    assert_eq!(
        des_encrypt("0".to_string(), "0".to_string()),
        des_encrypt("0000000000000000".to_string(), "0000000000000000".to_string())
    );
    assert_eq!(des_encrypt("0".to_string(), "0".to_string()), 0x8CA64DE9C1B123A7);
}

#[test]
fn text_round_trip() {
    let key = "0E329232EA6D0D73".to_string();
    let ciphertext = des_encrypt("8787878787878787".to_string(), key.clone());
    assert_eq!(ciphertext, 0);
    assert_eq!(des_decrypt(format!("{:016x}", ciphertext), key), 0x8787878787878787);
}
