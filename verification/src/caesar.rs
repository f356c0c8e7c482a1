//! The Caesar cipher: a fixed-shift substitution over the ASCII letters,
//! case-preserving, with every other character passed through unchanged.
//! ROT13 is the special case of shift 13.

use vstd::prelude::*;

use crate::error::CipherError;
use crate::text::{chars_of, string_of_chars};

verus! {

/// True for the ASCII lowercase letters.
pub open spec fn is_lower(c: char) -> bool {
    'a' <= c && c <= 'z'
}

/// True for the ASCII uppercase letters.
pub open spec fn is_upper(c: char) -> bool {
    'A' <= c && c <= 'Z'
}

/// True for the ASCII letters of either case.
pub open spec fn is_ascii_letter(c: char) -> bool {
    is_lower(c) || is_upper(c)
}

/// One character shifted by `shift` positions within its 26-letter case
/// class; a character that is not an ASCII letter is left unchanged.
pub open spec fn shift_char(c: char, shift: u8) -> char
    recommends
        shift < 26,
{
    if is_lower(c) {
        (((c as int - 'a' as int + shift as int) % 26) + 'a' as int) as char
    } else if is_upper(c) {
        (((c as int - 'A' as int + shift as int) % 26) + 'A' as int) as char
    } else {
        c
    }
}

/// A whole text shifted character by character.
pub open spec fn shift_text(s: Seq<char>, shift: u8) -> Seq<char>
    recommends
        shift < 26,
{
    Seq::new(s.len(), |i: int| shift_char(s[i], shift))
}

/// The shift that undoes `shift`.
pub open spec fn inverse_shift(shift: u8) -> u8
    recommends
        shift < 26,
{
    if shift == 0 {
        0
    } else {
        (26 - shift) as u8
    }
}

/// Applies the shift to one character in executable code.
fn encrypt_char(c: char, shift: u8) -> (r: char)
    requires
        shift < 26,
    ensures
        r == shift_char(c, shift),
{
    let u = c as u32;
    if 'a' as u32 <= u && u <= 'z' as u32 {
        let offset = (u - 'a' as u32) as u8;
        let new_offset = (offset + shift) % 26;
        ('a' as u8 + new_offset) as char
    } else if 'A' as u32 <= u && u <= 'Z' as u32 {
        let offset = (u - 'A' as u32) as u8;
        let new_offset = (offset + shift) % 26;
        ('A' as u8 + new_offset) as char
    } else {
        c
    }
}

/// Encrypts `text` with the Caesar cipher: each ASCII letter moves `shift`
/// positions forward within its case class (the shift is taken modulo 26),
/// and every other character is kept as it is.
pub fn encrypt(text: &str, shift: u8) -> (r: String)
    ensures
        r@ == shift_text(text@, shift % 26),
{
    let shift = shift % 26;
    let cs = chars_of(text);
    let mut out: Vec<char> = Vec::new();
    for i in 0..cs.len()
        invariant
            cs@ == text@,
            shift < 26,
            out@ == shift_text(text@, shift).subrange(0, i as int),
    {
        out.push(encrypt_char(cs[i], shift));
        proof {
            assert(out@ == shift_text(text@, shift).subrange(0, i + 1));
        }
    }
    proof {
        assert(shift_text(text@, shift).subrange(0, text@.len() as int) == shift_text(
            text@,
            shift,
        ));
    }
    string_of_chars(&out)
}

/// Decrypts `text` that was encrypted with the Caesar cipher under the same
/// shift, by applying the inverse shift.
pub fn decrypt(text: &str, shift: u8) -> (r: String)
    ensures
        r@ == shift_text(text@, inverse_shift(shift % 26)),
{
    let shift = shift % 26;
    let reverse_shift = if shift == 0 {
        0
    } else {
        26 - shift
    };
    encrypt(text, reverse_shift)
}

/// Shifting a letter and then shifting it by the inverse amount restores it.
proof fn lemma_shift_char_round_trip(c: char, shift: u8)
    requires
        shift < 26,
    ensures
        shift_char(shift_char(c, shift), inverse_shift(shift)) == c,
{
    if is_lower(c) {
        assert(is_lower(shift_char(c, shift)));
    } else if is_upper(c) {
        assert(is_upper(shift_char(c, shift)));
    } else {
        assert(!is_lower(shift_char(c, shift)) && !is_upper(shift_char(c, shift)));
    }
}

/// The Caesar round trip: decoding an encoded text under the same shift
/// gives the original text back, for every shift in [0, 255] and every
/// text.  `encrypt` applies `shift % 26` and `decrypt` its inverse, so
/// this is exactly what composing their contracts leaves to show.
pub proof fn lemma_caesar_round_trip(s: Seq<char>, shift: u8)
    ensures
        shift_text(shift_text(s, shift % 26), inverse_shift(shift % 26)) == s,
{
    let sh = shift % 26;
    let t = shift_text(shift_text(s, sh), inverse_shift(sh));
    assert forall|i: int| 0 <= i < s.len() implies t[i] == s[i] by {
        lemma_shift_char_round_trip(s[i], sh);
    }
    assert(t == s);
}

/// Characters that are not ASCII letters are unchanged by the Caesar
/// cipher, whatever the shift.
pub proof fn lemma_caesar_preserves_non_letters(s: Seq<char>, shift: u8)
    ensures
        forall|i: int|
            0 <= i < s.len() && !is_ascii_letter(s[i]) ==> #[trigger] shift_text(s, shift)[i]
                == s[i],
{
}

/// Applying shift 13 twice restores the original text: 13 is its own
/// inverse shift.
pub proof fn lemma_rot13_self_inverse(s: Seq<char>)
    ensures
        shift_text(shift_text(s, 13), 13) == s,
{
    assert(inverse_shift(13) == 13);
    lemma_caesar_round_trip(s, 13);
    assert(13u8 % 26 == 13);
}

/// A Caesar cipher instance holding its shift, normalized into [0, 26).
pub struct Caesar {
    shift: u8,
}

impl Caesar {
    /// The shift this instance applies when encrypting.
    pub closed spec fn spec_shift(&self) -> u8 {
        self.shift
    }

    #[verifier::type_invariant]
    spec fn wf(&self) -> bool {
        self.shift < 26
    }

    /// Creates a Caesar cipher instance; the shift is taken modulo 26, so
    /// construction always succeeds.
    pub fn new(shift: u8) -> (r: Self)
        ensures
            r.spec_shift() == shift % 26,
    {
        Self { shift: shift % 26 }
    }
}

impl crate::Cipher for Caesar {
    /// Encrypts the text with this instance's shift; never fails.
    fn encrypt(&self, text: &str) -> (r: Result<String, CipherError>)
        ensures
            r matches Ok(s) && s@ == shift_text(text@, self.spec_shift()),
    {
        proof {
            use_type_invariant(self);
        }
        Ok(encrypt(text, self.shift))
    }

    /// Decrypts the text with this instance's shift; never fails.
    fn decrypt(&self, text: &str) -> (r: Result<String, CipherError>)
        ensures
            r matches Ok(s) && s@ == shift_text(text@, inverse_shift(self.spec_shift())),
    {
        proof {
            use_type_invariant(self);
        }
        Ok(decrypt(text, self.shift))
    }
}

} // verus!
