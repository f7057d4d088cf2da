use des_cipher::encrypt::{des_decrypt, des_encrypt};

#[test]
fn encrypt_02468aceeca86420_with_0f1571c947d9e859() {
    let ciphertext = des_encrypt(
        "0123456789ABCDEF".to_string(),
        "133457799BBCDFF1".to_string(),
    );
    let expected: u64 = u64::from_str_radix(&"85e813540f0ab405", 16).ok().unwrap();
    assert_eq!(ciphertext, expected);
}

#[test]
fn encrypt_0123456789abcdef_with_133457799_bbcdff1() {
    let ciphertext = des_encrypt(
        "02468aceeca86420".to_string(),
        "0f1571c947d9e859".to_string(),
    );
    let expected: u64 = u64::from_str_radix(&"da02ce3a89ecac3b", 16).ok().unwrap();
    assert_eq!(ciphertext, expected);
}

#[test]
fn decrpyt_02468aceeca86420_with_0f1571c947d9e859() {
    let ciphertext = des_encrypt(
        "0123456789ABCDEF".to_string(),
        "133457799BBCDFF1".to_string(),
    );
    let decrypted = des_decrypt(
        "85e813540f0ab405".to_string(),
        "133457799BBCDFF1".to_string(),
    );
    let expected_ciphertext: u64 = u64::from_str_radix(&"85e813540f0ab405", 16).ok().unwrap();
    let expected_decrypted: u64 = u64::from_str_radix(&"0123456789ABCDEF", 16).ok().unwrap();
    assert_eq!(ciphertext, expected_ciphertext);
    assert_eq!(decrypted, expected_decrypted);
}

#[test]
fn decrpyt_0123456789abcdef_with_133457799_bbcdff1() {
    let ciphertext = des_encrypt(
        "02468aceeca86420".to_string(),
        "0f1571c947d9e859".to_string(),
    );
    let decrypted = des_decrypt(
        "da02ce3a89ecac3b".to_string(),
        "0f1571c947d9e859".to_string(),
    );
    let expected_ciphertext: u64 = u64::from_str_radix(&"da02ce3a89ecac3b", 16).ok().unwrap();
    let expected_decrypted: u64 = u64::from_str_radix(&"02468aceeca86420", 16).ok().unwrap();
    assert_eq!(ciphertext, expected_ciphertext);
    assert_eq!(decrypted, expected_decrypted);
}

#[test]
fn decrpyt_7772a5dc17cc382c_with_e31d1b22f059933e() {
    let ciphertext = des_encrypt(
        "7772A5DC17CC382C".to_string(),
        "E31D1B22F059933E".to_string(),
    );
    let decrypted = des_decrypt(
        "7C7EE7162E820D1C".to_string(),
        "E31D1B22F059933E".to_string(),
    );
    let expected_ciphertext: u64 = u64::from_str_radix(&"7C7EE7162E820D1C", 16).ok().unwrap();
    let expected_decrypted: u64 = u64::from_str_radix(&"7772A5DC17CC382C", 16).ok().unwrap();
    assert_eq!(ciphertext, expected_ciphertext);
    assert_eq!(decrypted, expected_decrypted);
}

#[test]
fn decrpyt_b268ed282a85a2ad_with_07511c6c9929cd75() {
    let ciphertext = des_encrypt(
        "b268ed282a85a2ad".to_string(),
        "07511c6c9929cd75".to_string(),
    );
    let decrypted = des_decrypt(
        "34B57D714D88E29C".to_string(),
        "07511c6c9929cd75".to_string(),
    );
    let expected_ciphertext: u64 = u64::from_str_radix(&"34B57D714D88E29C", 16).ok().unwrap();
    let expected_decrypted: u64 = u64::from_str_radix(&"b268ed282a85a2ad", 16).ok().unwrap();
    assert_eq!(ciphertext, expected_ciphertext);
    assert_eq!(decrypted, expected_decrypted);
}

#[test]
fn decrpyt_7e9591c91639ee65_with_c37ac5759520cd15() {
    let ciphertext = des_encrypt(
        "7e9591c91639ee65".to_string(),
        "c37ac5759520cd15".to_string(),
    );
    let decrypted = des_decrypt(
        "DC3C688EE9C561E6".to_string(),
        "c37ac5759520cd15".to_string(),
    );
    let expected_ciphertext: u64 = u64::from_str_radix(&"DC3C688EE9C561E6", 16).ok().unwrap();
    let expected_decrypted: u64 = u64::from_str_radix(&"7e9591c91639ee65", 16).ok().unwrap();
    assert_eq!(ciphertext, expected_ciphertext);
    assert_eq!(decrypted, expected_decrypted);
}
