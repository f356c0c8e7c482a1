//! Hex framing: a byte sequence rendered as a lowercase hex string and read
//! back.  The encoding and decoding calls go to the `hex` crate; their
//! contracts are stated here exactly, and the round trip between them is
//! proved as pure sequence arithmetic.

use vstd::prelude::*;
use vstd::string::StringSliceAdditionalSpecFns;

verus! {

/// The lowercase hex digit for a value in [0, 16).
pub open spec fn hex_digit(v: int) -> char
    recommends
        0 <= v < 16,
{
    if v < 10 {
        ('0' as int + v) as char
    } else {
        ('a' as int + v - 10) as char
    }
}

/// The lowercase hex rendering of a byte sequence: each byte becomes two
/// digits, high half first.
pub open spec fn hex_chars_of(b: Seq<u8>) -> Seq<char> {
    Seq::new(
        b.len() * 2,
        |i: int|
            if i % 2 == 0 {
                hex_digit(b[i / 2] as int / 16)
            } else {
                hex_digit(b[i / 2] as int % 16)
            },
    )
}

/// True for a byte that is the ASCII code of a hex digit, of either case.
pub open spec fn is_hex_digit_byte(b: u8) -> bool {
    ('0' as u8 <= b && b <= '9' as u8) || ('a' as u8 <= b && b <= 'f' as u8) || ('A' as u8 <= b && b
        <= 'F' as u8)
}

/// The value of a hex digit byte.
pub open spec fn hex_val(b: u8) -> int
    recommends
        is_hex_digit_byte(b),
{
    if '0' as u8 <= b && b <= '9' as u8 {
        b as int - '0' as int
    } else if 'a' as u8 <= b && b <= 'f' as u8 {
        b as int - 'a' as int + 10
    } else {
        b as int - 'A' as int + 10
    }
}

/// A byte sequence that hex decoding accepts: an even count of hex digit
/// bytes.
pub open spec fn valid_hex_bytes(b: Seq<u8>) -> bool {
    b.len() % 2 == 0 && forall|i: int| 0 <= i < b.len() ==> is_hex_digit_byte(#[trigger] b[i])
}

/// The bytes a hex digit byte sequence decodes to: each pair of digits
/// becomes one byte, high half first.
pub open spec fn hex_decode_bytes(b: Seq<u8>) -> Seq<u8>
    recommends
        valid_hex_bytes(b),
{
    Seq::new(b.len() / 2, |i: int| (hex_val(b[2 * i]) * 16 + hex_val(b[2 * i + 1])) as u8)
}

/// Relies on `hex::encode`: each byte of the input becomes two lowercase
/// hex digits, high half first, in order.
#[verifier::external_body]
pub fn hex_encode(b: &Vec<u8>) -> (r: String)
    ensures
        r@ == hex_chars_of(b@),
{
    hex::encode(b)
}

/// Relies on `hex::decode`: succeeds exactly when the input's bytes are an
/// even count of hex digits (of either case), and then turns each pair into
/// one byte.  The error case hands back the failure's description.
#[verifier::external_body]
pub fn hex_decode(s: &str) -> (r: Result<Vec<u8>, String>)
    ensures
        match r {
            Ok(v) => valid_hex_bytes(s.spec_bytes()) && v@ == hex_decode_bytes(s.spec_bytes()),
            Err(_) => !valid_hex_bytes(s.spec_bytes()),
        },
{
    hex::decode(s).map_err(|e| e.to_string())
}

/// A hex rendering has two digits for each byte, so its length is even,
/// and every character is a decimal digit or a lowercase letter among
/// 'a' to 'f'.
pub proof fn lemma_hex_chars_form(b: Seq<u8>)
    ensures
        hex_chars_of(b).len() == 2 * b.len(),
        hex_chars_of(b).len() % 2 == 0,
        forall|i: int|
            0 <= i < hex_chars_of(b).len() ==> (('0' <= #[trigger] hex_chars_of(b)[i]
                && hex_chars_of(b)[i] <= '9') || ('a' <= hex_chars_of(b)[i] && hex_chars_of(b)[i]
                <= 'f')),
{
    assert forall|i: int| 0 <= i < hex_chars_of(b).len() implies (('0'
        <= #[trigger] hex_chars_of(b)[i] && hex_chars_of(b)[i] <= '9') || ('a' <= hex_chars_of(
        b,
    )[i] && hex_chars_of(b)[i] <= 'f')) by {
        let v = if i % 2 == 0 {
            b[i / 2] as int / 16
        } else {
            b[i / 2] as int % 16
        };
        assert(0 <= v < 16);
        assert(hex_chars_of(b)[i] == hex_digit(v));
    }
}

/// Every character of a hex rendering is an ASCII character, so the
/// rendering's UTF-8 bytes are its characters' codes one for one.
pub proof fn lemma_hex_chars_ascii(b: Seq<u8>)
    ensures
        vstd::utf8::is_ascii_chars(hex_chars_of(b)),
        vstd::utf8::encode_utf8(hex_chars_of(b)) =~= Seq::new(
            hex_chars_of(b).len(),
            |i: int| hex_chars_of(b)[i] as u8,
        ),
{
    assert forall|i: int| 0 <= i < hex_chars_of(b).len() implies (hex_chars_of(b)[i] as nat)
        < 128 by {
        let v = if i % 2 == 0 {
            b[i / 2] as int / 16
        } else {
            b[i / 2] as int % 16
        };
        assert(0 <= v < 16);
    }
    vstd::utf8::is_ascii_chars_encode_utf8(hex_chars_of(b));
}

/// The hex round trip: the rendering of any byte sequence is itself a
/// valid hex byte sequence, and decoding it gives the original bytes back.
pub proof fn lemma_hex_round_trip(b: Seq<u8>)
    ensures
        valid_hex_bytes(vstd::utf8::encode_utf8(hex_chars_of(b))),
        hex_decode_bytes(vstd::utf8::encode_utf8(hex_chars_of(b))) =~= b,
{
    lemma_hex_chars_ascii(b);
    let chars = hex_chars_of(b);
    let bytes = vstd::utf8::encode_utf8(chars);
    assert forall|i: int| 0 <= i < bytes.len() implies is_hex_digit_byte(#[trigger] bytes[i]) by {
        let v = if i % 2 == 0 {
            b[i / 2] as int / 16
        } else {
            b[i / 2] as int % 16
        };
        assert(0 <= v < 16);
        assert(bytes[i] == hex_digit(v) as u8);
    }
    assert forall|i: int| 0 <= i < bytes.len() / 2 implies hex_decode_bytes(bytes)[i] == b[i] by {
        let hi = b[i] as int / 16;
        let lo = b[i] as int % 16;
        assert(bytes[2 * i] == hex_digit(hi) as u8);
        assert(bytes[2 * i + 1] == hex_digit(lo) as u8);
        assert(hex_val(hex_digit(hi) as u8) == hi);
        assert(hex_val(hex_digit(lo) as u8) == lo);
    }
}

} // verus!
