use ciphery::error::CipherError;
use ciphery::xor::Xor;
use ciphery::Cipher;

#[test]
fn test_xor_encrypt_decrypt() {
    let text = "Hello 🦀 (Rust) 世界!";
    let key = "super_secret_key_123";
    let cipher = Xor::new(key).unwrap();

    let encrypted_hex = cipher.encrypt(text).unwrap();
    println!("加密后的 Hex: {}", encrypted_hex);

    assert_ne!(text, encrypted_hex);

    let decrypted_text = cipher.decrypt(&encrypted_hex).unwrap();
    assert_eq!(decrypted_text, text);
}

#[test]
fn test_xor_invalid_hex_decrypt() {
    let invalid_hex = "this is not hex";
    let result = Xor::new("key").unwrap().decrypt(invalid_hex);
    assert!(result.is_err());
}

#[test]
fn test_xor_empty_key_fails() {
    let result = Xor::new("");
    assert!(matches!(result, Err(CipherError::InvalidKey(_))));
}

#[test]
fn test_xor_known_vector() {
    // "ab" is 0x61 0x62; the key "key" starts 0x6b 0x65;
    // 0x61 ^ 0x6b == 0x0a and 0x62 ^ 0x65 == 0x07.
    let cipher = Xor::new("key").unwrap();
    assert_eq!(cipher.encrypt("ab").unwrap(), "0a07");
    assert_eq!(cipher.decrypt("0a07").unwrap(), "ab");
}

#[test]
fn test_xor_output_is_lowercase_hex_of_even_length() {
    let cipher = Xor::new("séc🔑").unwrap();
    let encrypted = cipher.encrypt("Any text at all, 世界!").unwrap();
    assert_eq!(encrypted.len() % 2, 0);
    for c in encrypted.chars() {
        assert!(c.is_ascii_digit() || ('a'..='f').contains(&c));
    }
}

#[test]
fn test_xor_non_hex_gives_hex_coding_error() {
    let cipher = Xor::new("key").unwrap();
    let result = cipher.decrypt("zz");
    assert!(matches!(result, Err(CipherError::HexCodingError(_))));
    let odd = cipher.decrypt("abc");
    assert!(matches!(odd, Err(CipherError::HexCodingError(_))));
}

#[test]
fn test_xor_wrong_key_usually_detected() {
    // XORing back under a different key here produces bytes that are not
    // valid text, which surfaces as a hex-coding error.
    let cipher = Xor::new("🔑🔑").unwrap();
    let encrypted = cipher.encrypt("hello there").unwrap();
    let wrong = Xor::new("WRONG-KEY!").unwrap();
    assert!(wrong.decrypt(&encrypted).is_err());
}

#[test]
fn test_xor_roundtrip_empty_text() {
    let cipher = Xor::new("k").unwrap();
    let encrypted = cipher.encrypt("").unwrap();
    assert_eq!(encrypted, "");
    assert_eq!(cipher.decrypt("").unwrap(), "");
}
