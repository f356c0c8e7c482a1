//! The XOR cipher: the text's raw bytes are XORed cyclically against a
//! repeating key, and the result is framed as a lowercase hex string.
//! Decoding reverses the framing, XORs again, and reinterprets the bytes as
//! text; a wrong key usually surfaces there as invalid UTF-8.

use vstd::prelude::*;
use vstd::string::{StrSliceExecFns, StringExecFns, StringSliceAdditionalSpecFns};

use crate::error::CipherError;
use crate::hex_codec::{
    hex_chars_of, hex_decode, hex_decode_bytes, hex_encode, lemma_hex_round_trip, valid_hex_bytes,
};
use crate::text::string_from_utf8;

verus! {

/// A byte sequence XORed byte-wise against a cyclically repeated key.
pub open spec fn xor_bytes(data: Seq<u8>, key: Seq<u8>) -> Seq<u8>
    recommends
        key.len() > 0,
{
    Seq::new(data.len(), |i: int| data[i] ^ key[i % key.len() as int])
}

/// An XOR cipher instance holding the key's bytes.
pub struct Xor {
    key: Vec<u8>,
}

impl Xor {
    /// The bytes of the key this instance applies.
    pub closed spec fn spec_key(&self) -> Seq<u8> {
        self.key@
    }

    #[verifier::type_invariant]
    spec fn wf(&self) -> bool {
        self.key@.len() > 0
    }

    /// Creates an XOR cipher instance from an arbitrary non-empty key
    /// string, stored as its raw bytes.  An empty key is rejected with
    /// `InvalidKey`.
    pub fn new(key: &str) -> (r: Result<Self, CipherError>)
        ensures
            match r {
                Ok(x) => key@.len() > 0 && x.spec_key() == key.spec_bytes(),
                Err(e) => key@.len() == 0 && e is InvalidKey,
            },
    {
        if key.is_empty() {
            return Err(CipherError::InvalidKey(String::from_str("Key cannot be empty")));
        }
        let bytes = key.as_bytes_vec();
        proof {
            if key.spec_bytes().len() == 0 {
                vstd::utf8::encode_utf8_decode_utf8(key@);
                assert(key@.len() == 0);
            }
        }
        Ok(Xor { key: bytes })
    }

    /// XORs the data against this instance's repeating key.
    fn apply_key(&self, data: &Vec<u8>) -> (r: Vec<u8>)
        ensures
            r@ == xor_bytes(data@, self.spec_key()),
    {
        proof {
            use_type_invariant(self);
        }
        let mut out: Vec<u8> = Vec::new();
        let len = self.key.len();
        for i in 0..data.len()
            invariant
                self.wf(),
                len == self.spec_key().len(),
                out@ == xor_bytes(data@, self.spec_key()).subrange(0, i as int),
        {
            out.push(data[i] ^ self.key[i % len]);
            proof {
                assert(out@ == xor_bytes(data@, self.spec_key()).subrange(0, i + 1));
            }
        }
        proof {
            assert(xor_bytes(data@, self.spec_key()).subrange(0, data@.len() as int) == xor_bytes(
                data@,
                self.spec_key(),
            ));
        }
        out
    }

}

impl crate::Cipher for Xor {
    /// Encrypts the text: its UTF-8 bytes are XORed against the repeating
    /// key and the result is rendered as lowercase hex.  Never fails.
    fn encrypt(&self, text: &str) -> (r: Result<String, CipherError>)
        ensures
            r matches Ok(s) && s@ == hex_chars_of(xor_bytes(text.spec_bytes(), self.spec_key())),
    {
        let data = text.as_bytes_vec();
        let xored = self.apply_key(&data);
        Ok(hex_encode(&xored))
    }

    /// Decrypts a hex string: the hex framing is removed, the bytes are
    /// XORed against the repeating key, and the result is reinterpreted as
    /// text.  Fails with `HexCodingError` exactly when the input is not
    /// valid hex or the XORed bytes are not valid UTF-8 (as they usually
    /// are not under a wrong key).
    fn decrypt(&self, hex_text: &str) -> (r: Result<String, CipherError>)
        ensures
            match r {
                Ok(s) => valid_hex_bytes(hex_text.spec_bytes()) && vstd::utf8::valid_utf8(
                    xor_bytes(hex_decode_bytes(hex_text.spec_bytes()), self.spec_key()),
                ) && vstd::utf8::encode_utf8(s@) == xor_bytes(
                    hex_decode_bytes(hex_text.spec_bytes()),
                    self.spec_key(),
                ),
                Err(e) => e is HexCodingError && (!valid_hex_bytes(hex_text.spec_bytes())
                    || !vstd::utf8::valid_utf8(
                    xor_bytes(hex_decode_bytes(hex_text.spec_bytes()), self.spec_key()),
                )),
            },
    {
        let bytes = match hex_decode(hex_text) {
            Ok(b) => b,
            Err(detail) => {
                return Err(
                    CipherError::HexCodingError(
                        String::from_str("XOR decryption failed: ").concat(detail.as_str()),
                    ),
                );
            },
        };
        let plain = self.apply_key(&bytes);
        match string_from_utf8(plain) {
            Ok(s) => Ok(s),
            Err(detail) => Err(
                CipherError::HexCodingError(
                    String::from_str("XOR decryption failed: ").concat(detail.as_str()),
                ),
            ),
        }
    }
}

/// XORing against the same repeating key twice restores the bytes.
pub proof fn lemma_xor_involution(data: Seq<u8>, key: Seq<u8>)
    requires
        key.len() > 0,
    ensures
        xor_bytes(xor_bytes(data, key), key) =~= data,
{
    assert forall|i: int| 0 <= i < data.len() implies xor_bytes(xor_bytes(data, key), key)[i]
        == data[i] by {
        let k = key[i % key.len() as int];
        let d = data[i];
        assert((d ^ k) ^ k == d) by (bit_vector);
    }
}

/// The XOR cipher round trip: for every non-empty key and every text, the
/// encrypted frame is valid hex; unframing it and XORing again gives bytes
/// that are valid UTF-8 and decode to the original text.  Together with the
/// contracts of `Xor::encrypt` and `Xor::decrypt`, decoding an encoded text
/// under the same key always succeeds and returns the original.
pub proof fn lemma_xor_round_trip(text: Seq<char>, key: Seq<u8>)
    requires
        key.len() > 0,
    ensures
        ({
            let framed = vstd::utf8::encode_utf8(
                hex_chars_of(xor_bytes(vstd::utf8::encode_utf8(text), key)),
            );
            &&& valid_hex_bytes(framed)
            &&& vstd::utf8::valid_utf8(xor_bytes(hex_decode_bytes(framed), key))
            &&& vstd::utf8::decode_utf8(xor_bytes(hex_decode_bytes(framed), key)) == text
        }),
{
    let data = vstd::utf8::encode_utf8(text);
    let xored = xor_bytes(data, key);
    lemma_hex_round_trip(xored);
    let framed = vstd::utf8::encode_utf8(hex_chars_of(xored));
    assert(hex_decode_bytes(framed) == xored);
    lemma_xor_involution(data, key);
    assert(xor_bytes(hex_decode_bytes(framed), key) == data);
    vstd::utf8::encode_utf8_valid_utf8(text);
    vstd::utf8::encode_utf8_decode_utf8(text);
}

} // verus!
