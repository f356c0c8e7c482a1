//! The Vigenere cipher: a per-position variable shift driven by a repeating
//! keyword.  The key cursor advances only when an ASCII letter is consumed;
//! every other character passes through unchanged without consuming a key
//! position.

use vstd::prelude::*;

use crate::caesar::{is_ascii_letter, is_lower, is_upper};
use crate::error::CipherError;
use crate::text::{chars_of, string_of_chars};

verus! {

/// A Vigenere key is valid when it is non-empty and made of ASCII letters
/// only.
pub open spec fn valid_key(k: Seq<char>) -> bool {
    k.len() > 0 && forall|i: int| 0 <= i < k.len() ==> is_ascii_letter(#[trigger] k[i])
}

/// The uppercase ASCII code of an ASCII letter.
pub open spec fn upper_code(c: char) -> u8
    recommends
        is_ascii_letter(c),
{
    if is_lower(c) {
        (c as int - 32) as u8
    } else {
        c as u8
    }
}

/// A key string case-normalized to its uppercase ASCII codes.
pub open spec fn key_codes(k: Seq<char>) -> Seq<u8> {
    Seq::new(k.len(), |i: int| upper_code(k[i]))
}

/// True of key byte sequences as stored: non-empty, every byte an
/// uppercase ASCII letter code.
pub open spec fn valid_key_codes(key: Seq<u8>) -> bool {
    key.len() > 0 && forall|i: int| 0 <= i < key.len() ==> 'A' as u8 <= #[trigger] key[i] <= 'Z' as u8
}

/// How many of the first `i` characters of `s` are ASCII letters: the key
/// cursor's value when the character at position `i` is reached.
pub open spec fn letters_before(s: Seq<char>, i: int) -> nat
    decreases i,
{
    if i <= 0 {
        0
    } else {
        letters_before(s, i - 1) + if is_ascii_letter(s[i - 1]) {
            1nat
        } else {
            0nat
        }
    }
}

/// One letter shifted forward by the shift a key byte stands for,
/// staying within its own case class.
pub open spec fn vig_char(c: char, k: u8) -> char
    recommends
        is_ascii_letter(c),
        'A' as u8 <= k <= 'Z' as u8,
{
    let base = if is_upper(c) {
        'A' as int
    } else {
        'a' as int
    };
    ((c as int - base + (k as int - 'A' as int)) % 26 + base) as char
}

/// One letter shifted backward by the shift a key byte stands for.
pub open spec fn unvig_char(c: char, k: u8) -> char
    recommends
        is_ascii_letter(c),
        'A' as u8 <= k <= 'Z' as u8,
{
    let base = if is_upper(c) {
        'A' as int
    } else {
        'a' as int
    };
    ((c as int - base + 26 - (k as int - 'A' as int)) % 26 + base) as char
}

/// The key byte that governs position `i` of `s`: the key repeats, and only
/// letters consume a position.
pub open spec fn key_at(s: Seq<char>, key: Seq<u8>, i: int) -> u8
    recommends
        key.len() > 0,
{
    key[letters_before(s, i) as int % key.len() as int]
}

/// The whole text encrypted under the repeating key.
pub open spec fn vig_encode(s: Seq<char>, key: Seq<u8>) -> Seq<char>
    recommends
        valid_key_codes(key),
{
    Seq::new(
        s.len(),
        |i: int|
            if is_ascii_letter(s[i]) {
                vig_char(s[i], key_at(s, key, i))
            } else {
                s[i]
            },
    )
}

/// The whole text decrypted under the repeating key.
pub open spec fn vig_decode(s: Seq<char>, key: Seq<u8>) -> Seq<char>
    recommends
        valid_key_codes(key),
{
    Seq::new(
        s.len(),
        |i: int|
            if is_ascii_letter(s[i]) {
                unvig_char(s[i], key_at(s, key, i))
            } else {
                s[i]
            },
    )
}

/// Applies the forward shift of one key byte to one letter in executable
/// code.
fn encrypt_char(c: char, k: u8) -> (r: char)
    requires
        is_ascii_letter(c),
        'A' as u8 <= k <= 'Z' as u8,
    ensures
        r == vig_char(c, k),
{
    let u = c as u32;
    let base: u32 = if 'A' as u32 <= u && u <= 'Z' as u32 {
        'A' as u32
    } else {
        'a' as u32
    };
    let shift = (k - 'A' as u8) as u32;
    (((u - base + shift) % 26 + base) as u8) as char
}

/// Applies the backward shift of one key byte to one letter in executable
/// code.
fn decrypt_char(c: char, k: u8) -> (r: char)
    requires
        is_ascii_letter(c),
        'A' as u8 <= k <= 'Z' as u8,
    ensures
        r == unvig_char(c, k),
{
    let u = c as u32;
    let base: u32 = if 'A' as u32 <= u && u <= 'Z' as u32 {
        'A' as u32
    } else {
        'a' as u32
    };
    let shift = (k - 'A' as u8) as u32;
    (((u - base + 26 - shift) % 26 + base) as u8) as char
}

/// A Vigenere cipher instance holding the uppercased key bytes.
pub struct Vigenere {
    key: Vec<u8>,
    len: usize,
}

impl Vigenere {
    /// The uppercase ASCII codes of the key this instance applies.
    pub closed spec fn spec_key(&self) -> Seq<u8> {
        self.key@
    }

    #[verifier::type_invariant]
    spec fn wf(&self) -> bool {
        valid_key_codes(self.key@) && self.len == self.key@.len()
    }

    /// Creates a Vigenere cipher instance.  The key must be non-empty and
    /// contain ASCII letters only; it is stored uppercased.  An invalid key
    /// is rejected with `InvalidKey`.
    pub fn new(key: &str) -> (r: Result<Self, CipherError>)
        ensures
            match r {
                Ok(v) => valid_key(key@) && v.spec_key() == key_codes(key@),
                Err(e) => !valid_key(key@) && e is InvalidKey,
            },
    {
        let cs = chars_of(key);
        if cs.len() == 0 {
            return Err(CipherError::InvalidKey(String::from_str("Key cannot be empty")));
        }
        let mut codes: Vec<u8> = Vec::new();
        for i in 0..cs.len()
            invariant
                cs@ == key@,
                codes@ == key_codes(key@).subrange(0, i as int),
                forall|j: int| 0 <= j < i ==> is_ascii_letter(#[trigger] key@[j]),
        {
            let c = cs[i];
            if 'a' <= c && c <= 'z' {
                codes.push(c as u8 - 32);
            } else if 'A' <= c && c <= 'Z' {
                codes.push(c as u8);
            } else {
                return Err(
                    CipherError::InvalidKey(
                        String::from_str("Key must contain only ASCII letters"),
                    ),
                );
            }
            proof {
                assert(codes@ == key_codes(key@).subrange(0, i + 1));
            }
        }
        proof {
            assert(key_codes(key@).subrange(0, key@.len() as int) == key_codes(key@));
        }
        let len = codes.len();
        Ok(Self { key: codes, len })
    }
}

impl crate::Cipher for Vigenere {
    /// Encrypts the text: each ASCII letter is shifted by the key letter
    /// under the running cursor and the cursor advances; every other
    /// character is kept and the cursor stands still.  Never fails.
    fn encrypt(&self, text: &str) -> (r: Result<String, CipherError>)
        ensures
            r matches Ok(s) && s@ == vig_encode(text@, self.spec_key()),
    {
        proof {
            use_type_invariant(self);
        }
        let cs = chars_of(text);
        let mut out: Vec<char> = Vec::new();
        let mut key_index: usize = 0;
        for i in 0..cs.len()
            invariant
                cs@ == text@,
                self.wf(),
                key_index == letters_before(text@, i as int),
                key_index <= i,
                out@ == vig_encode(text@, self.spec_key()).subrange(0, i as int),
        {
            let c = cs[i];
            if ('a' <= c && c <= 'z') || ('A' <= c && c <= 'Z') {
                let k = self.key[key_index % self.len];
                key_index += 1;
                out.push(encrypt_char(c, k));
            } else {
                out.push(c);
            }
            proof {
                assert(out@ == vig_encode(text@, self.spec_key()).subrange(0, i + 1));
            }
        }
        proof {
            assert(vig_encode(text@, self.spec_key()).subrange(0, text@.len() as int) == vig_encode(
                text@,
                self.spec_key(),
            ));
        }
        Ok(string_of_chars(&out))
    }

    /// Decrypts the text: the same walk as `encrypt`, with each letter
    /// shifted backward by the key letter under the cursor.  Never fails.
    fn decrypt(&self, text: &str) -> (r: Result<String, CipherError>)
        ensures
            r matches Ok(s) && s@ == vig_decode(text@, self.spec_key()),
    {
        proof {
            use_type_invariant(self);
        }
        let cs = chars_of(text);
        let mut out: Vec<char> = Vec::new();
        let mut key_index: usize = 0;
        for i in 0..cs.len()
            invariant
                cs@ == text@,
                self.wf(),
                key_index == letters_before(text@, i as int),
                key_index <= i,
                out@ == vig_decode(text@, self.spec_key()).subrange(0, i as int),
        {
            let c = cs[i];
            if ('a' <= c && c <= 'z') || ('A' <= c && c <= 'Z') {
                let k = self.key[key_index % self.len];
                key_index += 1;
                out.push(decrypt_char(c, k));
            } else {
                out.push(c);
            }
            proof {
                assert(out@ == vig_decode(text@, self.spec_key()).subrange(0, i + 1));
            }
        }
        proof {
            assert(vig_decode(text@, self.spec_key()).subrange(0, text@.len() as int) == vig_decode(
                text@,
                self.spec_key(),
            ));
        }
        Ok(string_of_chars(&out))
    }
}

/// A valid key string's uppercase codes are valid stored key bytes, as
/// `Vigenere::new` stores them.
pub proof fn lemma_key_codes_valid(k: Seq<char>)
    requires
        valid_key(k),
    ensures
        valid_key_codes(key_codes(k)),
{
}

/// Encrypting one letter keeps it a letter of the same case.
proof fn lemma_vig_char_case(c: char, k: u8)
    requires
        is_ascii_letter(c),
        'A' as u8 <= k <= 'Z' as u8,
    ensures
        is_upper(c) ==> is_upper(vig_char(c, k)),
        is_lower(c) ==> is_lower(vig_char(c, k)),
{
}

/// Shifting a letter forward and then backward by the same key byte
/// restores it.
proof fn lemma_vig_char_round_trip(c: char, k: u8)
    requires
        is_ascii_letter(c),
        'A' as u8 <= k <= 'Z' as u8,
    ensures
        unvig_char(vig_char(c, k), k) == c,
{
    lemma_vig_char_case(c, k);
}

/// Position by position, the encrypted text has a letter exactly where the
/// original has one, so both texts drive the key cursor the same way.
proof fn lemma_encode_letters_before(s: Seq<char>, key: Seq<u8>, i: int)
    requires
        valid_key_codes(key),
        0 <= i <= s.len(),
    ensures
        letters_before(vig_encode(s, key), i) == letters_before(s, i),
    decreases i,
{
    if i > 0 {
        lemma_encode_letters_before(s, key, i - 1);
        if is_ascii_letter(s[i - 1]) {
            lemma_vig_char_case(s[i - 1], key_at(s, key, i - 1));
        }
    }
}

/// The Vigenere round trip: for every valid key and every text, decoding
/// an encoded text gives the original back; and characters that are not
/// ASCII letters are unchanged by encoding and do not consume a key
/// position.
pub proof fn lemma_vigenere_round_trip(s: Seq<char>, key: Seq<u8>)
    requires
        valid_key_codes(key),
    ensures
        vig_decode(vig_encode(s, key), key) == s,
        forall|i: int|
            0 <= i < s.len() && !is_ascii_letter(s[i]) ==> vig_encode(s, key)[i] == s[i]
                && letters_before(s, i + 1) == letters_before(s, i),
{
    let e = vig_encode(s, key);
    let d = vig_decode(e, key);
    assert forall|i: int| 0 <= i < s.len() implies d[i] == s[i] by {
        lemma_encode_letters_before(s, key, i);
        if is_ascii_letter(s[i]) {
            lemma_vig_char_case(s[i], key_at(s, key, i));
            lemma_vig_char_round_trip(s[i], key_at(s, key, i));
        }
    }
    assert(d == s);
}

} // verus!
