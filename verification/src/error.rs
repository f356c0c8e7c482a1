//! The error values a cipher can report.

use vstd::prelude::*;

verus! {

/// A failure of a cipher operation or of cipher construction.
///
/// Construction-time validation failures (a bad key) are reported as
/// `InvalidKey`; hex decoding failures and byte-to-text reinterpretation
/// failures after an XOR decode are reported as `HexCodingError`.  Each
/// variant carries a human-readable detail message.
#[derive(Debug, PartialEq, Eq)]
pub enum CipherError {
    /// The text violates an algorithm's character-domain assumption.
    InvalidInput(String),
    /// The key failed construction validation: empty, wrong character
    /// class, or an out-of-range numeric parameter.
    InvalidKey(String),
    /// A hex decode failure, or a byte-to-text reinterpretation failure
    /// after an XOR decode.
    HexCodingError(String),
    /// Reserved for transforms added later.
    Other(String),
}

impl CipherError {
    /// The detail message carried by the error.
    pub fn message(&self) -> (r: &String)
        ensures
            r@ == self.spec_message(),
    {
        match self {
            CipherError::InvalidInput(m) => m,
            CipherError::InvalidKey(m) => m,
            CipherError::HexCodingError(m) => m,
            CipherError::Other(m) => m,
        }
    }

    /// The characters of the detail message.
    pub open spec fn spec_message(&self) -> Seq<char> {
        match self {
            CipherError::InvalidInput(m) => m@,
            CipherError::InvalidKey(m) => m@,
            CipherError::HexCodingError(m) => m@,
            CipherError::Other(m) => m@,
        }
    }
}

} // verus!
