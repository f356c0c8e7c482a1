use ciphery::caesar::{decrypt, encrypt, Caesar};
use ciphery::Cipher;

#[test]
fn test_encrypt_lowercase() {
    assert_eq!(encrypt("hello", 3), "khoor");
}

#[test]
fn test_encrypt_uppercase() {
    assert_eq!(encrypt("HELLO", 3), "KHOOR");
}

#[test]
fn test_encrypt_mixed_and_punctuation() {
    assert_eq!(encrypt("Hello, World!", 5), "Mjqqt, Btwqi!");
}

#[test]
fn test_encrypt_large_shift() {
    // 29 % 26 == 3
    assert_eq!(encrypt("hello", 29), "khoor");
}

#[test]
fn test_decrypt_lowercase() {
    assert_eq!(decrypt("khoor", 3), "hello");
}

#[test]
fn test_decrypt_mixed_and_punctuation() {
    assert_eq!(decrypt("Mjqqt, Btwqi!", 5), "Hello, World!");
}

#[test]
fn test_encrypt_decrypt_roundtrip() {
    let original = "Rust is awesome! 123";
    let shift = 17;

    let encrypted = encrypt(original, shift);
    let decrypted = decrypt(&encrypted, shift);

    assert_eq!(original, decrypted);
}

#[test]
fn test_caesar_struct_and_trait() {
    let cipher = Caesar::new(3);

    let encrypted = cipher.encrypt("hello").unwrap();
    assert_eq!(encrypted, "khoor");

    let decrypted = cipher.decrypt(&encrypted).unwrap();
    assert_eq!(decrypted, "hello");
}

#[test]
fn test_rot13() {
    let cipher = Caesar::new(13);

    let encrypted = cipher.encrypt("hello").unwrap();
    assert_eq!(encrypted, "uryyb");

    let decrypted = cipher.encrypt(&encrypted).unwrap();
    assert_eq!(decrypted, "hello");
}

#[test]
fn test_caesar_roundtrip_every_shift() {
    let original = "The quick brown Fox: 42 jumps?";
    let mut shift: u8 = 0;
    loop {
        let encrypted = encrypt(original, shift);
        assert_eq!(decrypt(&encrypted, shift), original);
        if shift == 255 {
            break;
        }
        shift += 1;
    }
}

#[test]
fn test_caesar_keeps_non_letters() {
    assert_eq!(encrypt("123 !? ,;", 7), "123 !? ,;");
    assert_eq!(encrypt("ab-YZ", 1), "bc-ZA");
}

#[test]
fn test_caesar_keeps_non_latin() {
    assert_eq!(encrypt("héllo 世界", 3), "kéoor 世界");
}

#[test]
fn test_rot13_twice_on_free_functions() {
    let original = "Mixed CASE, digits 007 and symbols #!";
    assert_eq!(encrypt(&encrypt(original, 13), 13), original);
}

#[test]
fn test_caesar_shift_zero() {
    assert_eq!(encrypt("same text", 0), "same text");
    assert_eq!(decrypt("same text", 0), "same text");
}

#[test]
fn test_caesar_wraparound() {
    assert_eq!(encrypt("xyz", 3), "abc");
    assert_eq!(encrypt("XYZ", 3), "ABC");
}
