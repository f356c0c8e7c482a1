//! A toolkit of classical text ciphers: Caesar/ROT13 shifting, Vigenere
//! polyalphabetic substitution, repeating-key XOR with hex framing, and
//! Rail Fence transposition.  Every transform is a pure function from
//! (key, text) to text, with a proved round-trip between its encoding and
//! decoding directions.

use vstd::prelude::*;

pub mod caesar;
pub mod cli;
pub mod error;
pub mod handler;
pub mod hex_codec;
pub mod rail_fence;
pub mod text;
pub mod vigenere;
pub mod xor;

pub use error::CipherError;

verus! {

/// The shared capability every transform offers: encrypt a text, decrypt a
/// text, each returning the produced text or an error.  A caller can hold
/// any transform behind this trait; each implementation strengthens the
/// contract with its own transform's exact semantics.
pub trait Cipher {
    /// Encrypts the given plaintext.
    fn encrypt(&self, text: &str) -> Result<String, CipherError>;

    /// Decrypts the given ciphertext.
    fn decrypt(&self, text: &str) -> Result<String, CipherError>;
}

} // verus!
