use ciphery::error::CipherError;
use ciphery::rail_fence::{decrypt, encrypt, RailFence};
use ciphery::Cipher;

#[test]
fn test_rail_fence_encrypt_three_rails() {
    let input = "WEAREDISCOVEREDFLEEATONCE";
    let cipher = RailFence::new(3).unwrap();
    let encrypted = cipher.encrypt(input).unwrap();
    assert_eq!(encrypted, "WECRLTEERDSOEEFEAOCAIVDEN");
}

#[test]
fn test_rail_fence_decrypt_three_rails() {
    let input = "WECRLTEERDSOEEFEAOCAIVDEN";
    let cipher = RailFence::new(3).unwrap();
    let decrypted = cipher.decrypt(input).unwrap();
    assert_eq!(decrypted, "WEAREDISCOVEREDFLEEATONCE");
}

#[test]
fn test_rail_fence_roundtrip_unicode() {
    let input = "Hello ä¸–ç•Œ Rust ðŸ¦€";
    let cipher = RailFence::new(4).unwrap();
    let encrypted = cipher.encrypt(input).unwrap();
    let decrypted = cipher.decrypt(&encrypted).unwrap();
    assert_eq!(decrypted, input);
}

#[test]
fn test_rail_fence_two_rails() {
    assert_eq!(encrypt("HELLO", 2), "HLOEL");
    assert_eq!(decrypt("HLOEL", 2), "HELLO");
}

#[test]
fn test_rail_fence_invalid_rails() {
    let result = RailFence::new(1);
    assert!(result.is_err());
    assert_eq!(
        result.unwrap_err(),
        CipherError::InvalidKey("Rail Fence rails must be >= 2".to_string())
    );
}

#[test]
fn test_rail_fence_zero_rails() {
    let result = RailFence::new(0);
    assert!(matches!(result, Err(CipherError::InvalidKey(_))));
}

#[test]
fn test_rail_fence_roundtrip_many_rail_counts() {
    let input = "Multi-byte 世界 and ASCII mixed, 12345!";
    for rails in 2..12 {
        let encrypted = encrypt(input, rails);
        assert_eq!(decrypt(&encrypted, rails), input);
    }
}

#[test]
fn test_rail_fence_short_texts_pass_through() {
    assert_eq!(encrypt("", 3), "");
    assert_eq!(encrypt("x", 3), "x");
    assert_eq!(decrypt("", 3), "");
    assert_eq!(decrypt("x", 3), "x");
}

#[test]
fn test_rail_fence_more_rails_than_characters() {
    let input = "abc";
    let encrypted = encrypt(input, 10);
    assert_eq!(encrypted, "abc");
    assert_eq!(decrypt(&encrypted, 10), input);
}
