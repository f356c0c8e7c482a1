use ciphery::error::CipherError;
use ciphery::vigenere::Vigenere;
use ciphery::Cipher;

#[test]
fn test_vigenere_encrypt() {
    let text = "ATTACK AT DAWN!";
    let key = "LEMON";
    let cipher = Vigenere::new(key).unwrap();
    let encrypted = cipher.encrypt(text).unwrap();
    assert_eq!(encrypted, "LXFOPV EF RNHR!");
}

#[test]
fn test_vigenere_decrypt() {
    let text = "LXFOPV EF RNHR!";
    let key = "LEMON";
    let cipher = Vigenere::new(key).unwrap();
    let decrypted = cipher.decrypt(text).unwrap();
    assert_eq!(decrypted, "ATTACK AT DAWN!");
}

#[test]
fn test_vigenere_with_unicode() {
    let text = "Hello 世界";
    let key = "KEY";
    let cipher = Vigenere::new(key).unwrap();
    let encrypted = cipher.encrypt(text).unwrap();
    assert_eq!(encrypted, "Rijvs 世界");
    assert_eq!(cipher.decrypt(&encrypted).unwrap(), text);
}

#[test]
fn test_vigenere_empty_key_fails() {
    let result = Vigenere::new("");
    assert!(matches!(result, Err(CipherError::InvalidKey(_))));
}

#[test]
fn test_vigenere_non_letter_key_fails() {
    let result = Vigenere::new("abc123");
    assert!(matches!(result, Err(CipherError::InvalidKey(_))));
}

#[test]
fn test_vigenere_key_case_insensitive() {
    let upper = Vigenere::new("LEMON").unwrap();
    let lower = Vigenere::new("lemon").unwrap();
    let text = "Attack at dawn";
    assert_eq!(
        upper.encrypt(text).unwrap(),
        lower.encrypt(text).unwrap()
    );
}

#[test]
fn test_vigenere_roundtrip_with_punctuation() {
    let cipher = Vigenere::new("aBcD").unwrap();
    let text = "Mixed: case, digits 123 & symbols!";
    let encrypted = cipher.encrypt(text).unwrap();
    assert_eq!(cipher.decrypt(&encrypted).unwrap(), text);
}

#[test]
fn test_vigenere_cursor_skips_non_letters() {
    // With key "BC": the first letter shifts by 1, the second by 2, and
    // the space between them does not consume a key position.
    let cipher = Vigenere::new("BC").unwrap();
    assert_eq!(cipher.encrypt("a a").unwrap(), "b c");
}
