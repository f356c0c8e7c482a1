//! Dispatch from a resolved (direction, algorithm, key, text) request to
//! the matching transform, with key parsing and the missing-key policy.
//! All rendering and I/O around these calls is a collaborator's concern.

use vstd::prelude::*;

use crate::caesar;
use crate::Cipher;
use crate::caesar::{inverse_shift, shift_text};
use crate::cli::{Algorithm, Commands};
use crate::error::CipherError;
use crate::hex_codec::{hex_chars_of, hex_decode_bytes, valid_hex_bytes};
use crate::rail_fence::{fence_decode, fence_encode, RailFence};
use crate::vigenere::{key_codes, vig_decode, vig_encode, Vigenere};
use crate::xor::{xor_bytes, Xor};

verus! {

/// True for the ASCII decimal digits.
pub open spec fn is_digit(c: char) -> bool {
    '0' <= c && c <= '9'
}

/// True for a non-empty text of decimal digits.
pub open spec fn is_decimal(s: Seq<char>) -> bool {
    s.len() > 0 && forall|i: int| 0 <= i < s.len() ==> is_digit(#[trigger] s[i])
}

/// The number a digit text denotes.
pub open spec fn decimal_value(s: Seq<char>) -> int
    recommends
        is_decimal(s),
    decreases s.len(),
{
    if s.len() == 0 {
        0
    } else {
        decimal_value(s.drop_last()) * 10 + (s.last() as int - '0' as int)
    }
}

/// True for a key text that denotes a number a numeric cipher parameter
/// can hold: a non-empty digit text whose value fits in a byte.
pub open spec fn valid_numeric_key(s: Seq<char>) -> bool {
    is_decimal(s) && decimal_value(s) < 256
}

/// Parses a numeric key to a byte.  Fails with `InvalidKey` exactly when
/// the text is empty, holds a non-digit, or denotes a number above 255.
fn parse_decimal_u8(key: &str) -> (r: Result<u8, CipherError>)
    ensures
        match r {
            Ok(v) => valid_numeric_key(key@) && v == decimal_value(key@),
            Err(e) => !valid_numeric_key(key@) && e is InvalidKey,
        },
{
    let cs = crate::text::chars_of(key);
    if cs.len() == 0 {
        return Err(CipherError::InvalidKey(String::from_str("Key must be a number")));
    }
    // `acc` tracks the value of the digits read so far, saturated at 256
    // so that any overflowing key is still scanned to its end.
    let mut acc: u32 = 0;
    for i in 0..cs.len()
        invariant
            cs@ == key@,
            forall|j: int| 0 <= j < i ==> is_digit(#[trigger] key@[j]),
            acc <= 255 ==> acc == decimal_value(key@.subrange(0, i as int)),
            acc > 255 ==> acc == 256 && decimal_value(key@.subrange(0, i as int)) > 255,
    {
        let c = cs[i];
        if !('0' <= c && c <= '9') {
            return Err(CipherError::InvalidKey(String::from_str("Key must be a number")));
        }
        let d = c as u32 - '0' as u32;
        let next = acc * 10 + d;
        acc = if next > 255 {
            256
        } else {
            next
        };
        proof {
            assert(key@.subrange(0, i + 1).drop_last() == key@.subrange(0, i as int));
        }
    }
    proof {
        assert(key@.subrange(0, key@.len() as int) == key@);
    }
    if acc > 255 {
        return Err(CipherError::InvalidKey(String::from_str("Key is too large")));
    }
    Ok(acc as u8)
}

/// Parses the Caesar key: a decimal shift amount, reduced modulo 26.
/// Fails with `InvalidKey` exactly when the text is not a number a byte
/// can hold.
pub fn parse_caesar_key(key: &str) -> (r: Result<u8, CipherError>)
    ensures
        match r {
            Ok(v) => valid_numeric_key(key@) && v == decimal_value(key@) % 26,
            Err(e) => !valid_numeric_key(key@) && e is InvalidKey,
        },
{
    let shift = parse_decimal_u8(key)?;
    Ok(shift % 26)
}

/// The view of an optional key string.
pub open spec fn key_view(key: Option<String>) -> Option<Seq<char>> {
    match key {
        Option::None => Option::None,
        Option::Some(k) => Option::Some(k@),
    }
}

/// When an encryption request fails, and with which error: a missing key
/// for any algorithm but ROT13, or a key that fails its algorithm's
/// validation.
pub open spec fn encrypt_err(algorithm: Algorithm, key: Option<Seq<char>>, e: CipherError) -> bool {
    e is InvalidKey && match key {
        Option::None => !(algorithm is Rot13),
        Option::Some(k) => match algorithm {
            Algorithm::Caesar => !valid_numeric_key(k),
            Algorithm::Rot13 => false,
            Algorithm::Vigenere => !crate::vigenere::valid_key(k),
            Algorithm::Xor => k.len() == 0,
            Algorithm::RailFence => !valid_numeric_key(k) || decimal_value(k) < 2,
        },
    }
}

/// What a successful encryption returns, per algorithm.
pub open spec fn encrypt_ok(
    algorithm: Algorithm,
    text: Seq<char>,
    key: Option<Seq<char>>,
    out: Seq<char>,
) -> bool {
    match algorithm {
        Algorithm::Rot13 => out == shift_text(text, 13),
        _ => match key {
            Option::None => false,
            Option::Some(k) => match algorithm {
                Algorithm::Caesar => valid_numeric_key(k) && out == shift_text(
                    text,
                    (decimal_value(k) % 26) as u8,
                ),
                Algorithm::Rot13 => false,
                Algorithm::Vigenere => crate::vigenere::valid_key(k) && out == vig_encode(
                    text,
                    key_codes(k),
                ),
                Algorithm::Xor => k.len() > 0 && out == hex_chars_of(
                    xor_bytes(vstd::utf8::encode_utf8(text), vstd::utf8::encode_utf8(k)),
                ),
                Algorithm::RailFence => valid_numeric_key(k) && decimal_value(k) >= 2 && out
                    == fence_encode(text, decimal_value(k)),
            },
        },
    }
}

/// When a decryption request fails, and with which error: the encryption
/// failures, and for XOR also a `HexCodingError` when the input is not
/// valid hex or the unframed bytes do not XOR back to valid text.
pub open spec fn decrypt_err(
    algorithm: Algorithm,
    text: Seq<char>,
    key: Option<Seq<char>>,
    e: CipherError,
) -> bool {
    encrypt_err(algorithm, key, e) || (algorithm is Xor && match key {
        Option::None => false,
        Option::Some(k) => k.len() > 0 && e is HexCodingError && {
            let framed = vstd::utf8::encode_utf8(text);
            !valid_hex_bytes(framed) || !vstd::utf8::valid_utf8(
                xor_bytes(hex_decode_bytes(framed), vstd::utf8::encode_utf8(k)),
            )
        },
    })
}

/// What a successful decryption returns, per algorithm.
pub open spec fn decrypt_ok(
    algorithm: Algorithm,
    text: Seq<char>,
    key: Option<Seq<char>>,
    out: Seq<char>,
) -> bool {
    match algorithm {
        Algorithm::Rot13 => out == shift_text(text, 13),
        _ => match key {
            Option::None => false,
            Option::Some(k) => match algorithm {
                Algorithm::Caesar => valid_numeric_key(k) && out == shift_text(
                    text,
                    inverse_shift((decimal_value(k) % 26) as u8),
                ),
                Algorithm::Rot13 => false,
                Algorithm::Vigenere => crate::vigenere::valid_key(k) && out == vig_decode(
                    text,
                    key_codes(k),
                ),
                Algorithm::Xor => k.len() > 0 && {
                    let framed = vstd::utf8::encode_utf8(text);
                    &&& valid_hex_bytes(framed)
                    &&& vstd::utf8::valid_utf8(
                        xor_bytes(hex_decode_bytes(framed), vstd::utf8::encode_utf8(k)),
                    )
                    &&& vstd::utf8::encode_utf8(out) == xor_bytes(
                        hex_decode_bytes(framed),
                        vstd::utf8::encode_utf8(k),
                    )
                },
                Algorithm::RailFence => valid_numeric_key(k) && decimal_value(k) >= 2 && out
                    == fence_decode(text, decimal_value(k)),
            },
        },
    }
}

/// Encrypts `text` with the selected algorithm, validating the key first:
/// a missing key is rejected for every algorithm but ROT13, and a key that
/// fails its algorithm's validation is rejected as the algorithm demands.
pub fn execute_encrypt(algorithm: Algorithm, text: &str, key: &Option<String>) -> (r: Result<
    String,
    CipherError,
>)
    ensures
        match r {
            Ok(s) => encrypt_ok(algorithm, text@, key_view(*key), s@),
            Err(e) => encrypt_err(algorithm, key_view(*key), e),
        },
{
    match algorithm {
        Algorithm::Rot13 => {
            let cipher = caesar::Caesar::new(13);
            cipher.encrypt(text)
        },
        _ => {
            let k = match key {
                Option::Some(k) => k,
                Option::None => {
                    return Err(CipherError::InvalidKey(String::from_str("No key provided")));
                },
            };
            match algorithm {
                Algorithm::Caesar => {
                    let shift = parse_caesar_key(k.as_str())?;
                    let cipher = caesar::Caesar::new(shift);
                    cipher.encrypt(text)
                },
                Algorithm::Rot13 => {
                    let cipher = caesar::Caesar::new(13);
                    cipher.encrypt(text)
                },
                Algorithm::Vigenere => {
                    let cipher = Vigenere::new(k.as_str())?;
                    cipher.encrypt(text)
                },
                Algorithm::Xor => {
                    let cipher = Xor::new(k.as_str())?;
                    cipher.encrypt(text)
                },
                Algorithm::RailFence => {
                    let rails = parse_decimal_u8(k.as_str())?;
                    let cipher = RailFence::new(rails as usize)?;
                    cipher.encrypt(text)
                },
            }
        },
    }
}

/// Decrypts `text` with the selected algorithm, validating the key first,
/// with the same policy as `execute_encrypt`.
pub fn execute_decrypt(algorithm: Algorithm, text: &str, key: &Option<String>) -> (r: Result<
    String,
    CipherError,
>)
    ensures
        match r {
            Ok(s) => decrypt_ok(algorithm, text@, key_view(*key), s@),
            Err(e) => decrypt_err(algorithm, text@, key_view(*key), e),
        },
{
    match algorithm {
        Algorithm::Rot13 => {
            let cipher = caesar::Caesar::new(13);
            cipher.decrypt(text)
        },
        _ => {
            let k = match key {
                Option::Some(k) => k,
                Option::None => {
                    return Err(CipherError::InvalidKey(String::from_str("No key provided")));
                },
            };
            match algorithm {
                Algorithm::Caesar => {
                    let shift = parse_caesar_key(k.as_str())?;
                    let cipher = caesar::Caesar::new(shift);
                    cipher.decrypt(text)
                },
                Algorithm::Rot13 => {
                    let cipher = caesar::Caesar::new(13);
                    cipher.decrypt(text)
                },
                Algorithm::Vigenere => {
                    let cipher = Vigenere::new(k.as_str())?;
                    cipher.decrypt(text)
                },
                Algorithm::Xor => {
                    let cipher = Xor::new(k.as_str())?;
                    cipher.decrypt(text)
                },
                Algorithm::RailFence => {
                    let rails = parse_decimal_u8(k.as_str())?;
                    let cipher = RailFence::new(rails as usize)?;
                    cipher.decrypt(text)
                },
            }
        },
    }
}

/// The dispatch entry point: runs one resolved request through the
/// matching transform and returns what it produced.
pub fn run(command: &Commands) -> (r: Result<String, CipherError>)
    ensures
        match command {
            Commands::Encrypt { text, algo, key } => match r {
                Ok(s) => encrypt_ok(*algo, text@, key_view(*key), s@),
                Err(e) => encrypt_err(*algo, key_view(*key), e),
            },
            Commands::Decrypt { text, algo, key } => match r {
                Ok(s) => decrypt_ok(*algo, text@, key_view(*key), s@),
                Err(e) => decrypt_err(*algo, text@, key_view(*key), e),
            },
        },
{
    match command {
        Commands::Encrypt { text, algo, key } => execute_encrypt(*algo, text.as_str(), key),
        Commands::Decrypt { text, algo, key } => execute_decrypt(*algo, text.as_str(), key),
    }
}

} // verus!
