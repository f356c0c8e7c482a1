//! The algorithm selector and the command shape handed to the dispatch
//! entry point.  Argument parsing itself is a collaborator's concern; the
//! core receives only the resolved values.

use vstd::prelude::*;

verus! {

/// The selectable cipher algorithms.
#[derive(Copy, Clone, PartialEq, Eq, PartialOrd, Ord, Debug)]
pub enum Algorithm {
    Caesar,
    Rot13,
    Vigenere,
    Xor,
    RailFence,
}

/// One resolved request: the direction, the text payload, the algorithm,
/// and the key if one was given.  Only ROT13 may go without a key.
#[derive(Debug)]
pub enum Commands {
    /// Perform an encryption operation.
    Encrypt { text: String, algo: Algorithm, key: Option<String> },
    /// Perform a decryption operation.
    Decrypt { text: String, algo: Algorithm, key: Option<String> },
}

} // verus!
