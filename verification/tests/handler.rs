use ciphery::cli::{Algorithm, Commands};
use ciphery::error::CipherError;
use ciphery::handler::{execute_decrypt, execute_encrypt, parse_caesar_key, run};

#[test]
fn test_parse_caesar_key_values() {
    assert_eq!(parse_caesar_key("3").unwrap(), 3);
    assert_eq!(parse_caesar_key("29").unwrap(), 3);
    assert_eq!(parse_caesar_key("0").unwrap(), 0);
    assert_eq!(parse_caesar_key("255").unwrap(), 255 % 26);
}

#[test]
fn test_parse_caesar_key_rejects_bad_input() {
    assert!(matches!(parse_caesar_key(""), Err(CipherError::InvalidKey(_))));
    assert!(matches!(parse_caesar_key("abc"), Err(CipherError::InvalidKey(_))));
    assert!(matches!(parse_caesar_key("1x"), Err(CipherError::InvalidKey(_))));
    assert!(matches!(parse_caesar_key("256"), Err(CipherError::InvalidKey(_))));
    assert!(matches!(parse_caesar_key("99999"), Err(CipherError::InvalidKey(_))));
}

#[test]
fn test_run_caesar_encrypt() {
    let command = Commands::Encrypt {
        text: "hello".to_string(),
        algo: Algorithm::Caesar,
        key: Some("3".to_string()),
    };
    assert_eq!(run(&command).unwrap(), "khoor");
}

#[test]
fn test_run_caesar_decrypt() {
    let command = Commands::Decrypt {
        text: "khoor".to_string(),
        algo: Algorithm::Caesar,
        key: Some("3".to_string()),
    };
    assert_eq!(run(&command).unwrap(), "hello");
}

#[test]
fn test_run_rot13_needs_no_key() {
    let command = Commands::Encrypt {
        text: "hello".to_string(),
        algo: Algorithm::Rot13,
        key: None,
    };
    assert_eq!(run(&command).unwrap(), "uryyb");
    let back = Commands::Decrypt {
        text: "uryyb".to_string(),
        algo: Algorithm::Rot13,
        key: None,
    };
    assert_eq!(run(&back).unwrap(), "hello");
}

#[test]
fn test_run_missing_key_rejected() {
    for algo in [
        Algorithm::Caesar,
        Algorithm::Vigenere,
        Algorithm::Xor,
        Algorithm::RailFence,
    ] {
        let command = Commands::Encrypt {
            text: "hello".to_string(),
            algo,
            key: None,
        };
        assert!(matches!(run(&command), Err(CipherError::InvalidKey(_))));
    }
}

#[test]
fn test_run_vigenere_roundtrip() {
    let encrypted = run(&Commands::Encrypt {
        text: "ATTACK AT DAWN!".to_string(),
        algo: Algorithm::Vigenere,
        key: Some("LEMON".to_string()),
    })
    .unwrap();
    assert_eq!(encrypted, "LXFOPV EF RNHR!");
    let decrypted = run(&Commands::Decrypt {
        text: encrypted,
        algo: Algorithm::Vigenere,
        key: Some("LEMON".to_string()),
    })
    .unwrap();
    assert_eq!(decrypted, "ATTACK AT DAWN!");
}

#[test]
fn test_run_xor_roundtrip() {
    let encrypted = run(&Commands::Encrypt {
        text: "secret message".to_string(),
        algo: Algorithm::Xor,
        key: Some("pass".to_string()),
    })
    .unwrap();
    let decrypted = run(&Commands::Decrypt {
        text: encrypted,
        algo: Algorithm::Xor,
        key: Some("pass".to_string()),
    })
    .unwrap();
    assert_eq!(decrypted, "secret message");
}

#[test]
fn test_run_rail_fence_selectable() {
    let encrypted = run(&Commands::Encrypt {
        text: "WEAREDISCOVEREDFLEEATONCE".to_string(),
        algo: Algorithm::RailFence,
        key: Some("3".to_string()),
    })
    .unwrap();
    assert_eq!(encrypted, "WECRLTEERDSOEEFEAOCAIVDEN");
    let decrypted = run(&Commands::Decrypt {
        text: encrypted,
        algo: Algorithm::RailFence,
        key: Some("3".to_string()),
    })
    .unwrap();
    assert_eq!(decrypted, "WEAREDISCOVEREDFLEEATONCE");
}

#[test]
fn test_execute_rail_fence_bad_rail_counts() {
    let one = execute_encrypt(Algorithm::RailFence, "text", &Some("1".to_string()));
    assert!(matches!(one, Err(CipherError::InvalidKey(_))));
    let zero = execute_encrypt(Algorithm::RailFence, "text", &Some("0".to_string()));
    assert!(matches!(zero, Err(CipherError::InvalidKey(_))));
    let word = execute_decrypt(Algorithm::RailFence, "text", &Some("two".to_string()));
    assert!(matches!(word, Err(CipherError::InvalidKey(_))));
}

#[test]
fn test_error_message_accessor() {
    let e = CipherError::InvalidKey("the detail".to_string());
    assert_eq!(e.message().as_str(), "the detail");
    let o = CipherError::Other("other detail".to_string());
    assert_eq!(o.message().as_str(), "other detail");
    let i = CipherError::InvalidInput("bad input".to_string());
    assert_eq!(i.message().as_str(), "bad input");
    let h = CipherError::HexCodingError("bad hex".to_string());
    assert_eq!(h.message().as_str(), "bad hex");
}
