//! The message codec and the transport codec.
//!
//! A message's UTF-8 bytes are read as a big-endian integer bounded by
//! the modulus; raw ciphertext bytes are optionally carried as a
//! printable lowercase hexadecimal string.

use vstd::prelude::*;
use vstd::arithmetic::div_mod::lemma_fundamental_div_mod;
use vstd::utf8::valid_utf8;
use vstd::utf8::decode_utf8;
use vstd::utf8::encode_utf8;
use num_bigint::BigUint;
use crate::rsa::bignum::{nat_of, be_nat, min_be, bu_from_bytes_be, bu_to_bytes_be, bu_lt};
use crate::rsa::error::RSAError;

verus! {

/// The lowercase hexadecimal digit for a value below 16.
pub open spec fn hex_char(v: int) -> char
    recommends
        0 <= v < 16,
{
    if v < 10 {
        (((v + 48) as u8) as char)
    } else {
        (((v + 87) as u8) as char)
    }
}

/// The lowercase hexadecimal text of a byte sequence, two digits a
/// byte, as `hex::encode` writes it.
pub open spec fn hex_of(b: Seq<u8>) -> Seq<char>
    decreases b.len(),
{
    if b.len() == 0 {
        Seq::empty()
    } else {
        hex_of(b.drop_last()) + seq![
            hex_char(b.last() as int / 16),
            hex_char(b.last() as int % 16),
        ]
    }
}

/// A character that stands for a hexadecimal digit, either case.
pub open spec fn is_hex_digit(c: char) -> bool {
    (48 <= c as u32 && c as u32 <= 57) || (97 <= c as u32 && c as u32 <= 102) || (65 <= c as u32
        && c as u32 <= 70)
}

/// The value of one hexadecimal digit.
pub open spec fn hex_digit_val(c: char) -> int
    recommends
        is_hex_digit(c),
{
    if 48 <= c as u32 && c as u32 <= 57 {
        c as u32 - 48
    } else if 97 <= c as u32 && c as u32 <= 102 {
        c as u32 - 87
    } else {
        c as u32 - 55
    }
}

/// Text that the hexadecimal decoder accepts: an even count of digits.
pub open spec fn is_hex_text(s: Seq<char>) -> bool {
    s.len() % 2 == 0 && (forall|i: int| 0 <= i < s.len() ==> is_hex_digit(s[i]))
}

/// The bytes that a hexadecimal text writes, two digits a byte.
pub open spec fn unhex(s: Seq<char>) -> Seq<u8>
    recommends
        is_hex_text(s),
    decreases s.len(),
{
    if s.len() < 2 {
        Seq::empty()
    } else {
        unhex(s.drop_last().drop_last()).push(
            ((hex_digit_val(s[s.len() - 2]) * 16 + hex_digit_val(s[s.len() - 1])) as u8),
        )
    }
}

/// Declares `hex::FromHexError`, the hexadecimal decoder's failure.
#[verifier::external_type_specification]
#[verifier::external_body]
pub struct ExFromHexError(hex::FromHexError);

/// Relies on `hex::encode`: two lowercase digits for each byte.
#[verifier::external_body]
pub(crate) fn hex_encode(b: &Vec<u8>) -> (r: String)
    ensures
        r@ == hex_of(b@),
{
    hex::encode(b)
}

/// Relies on `hex::decode`: succeeds exactly on an even count of
/// hexadecimal digits (either case), and then yields the bytes they
/// write.
#[verifier::external_body]
pub(crate) fn hex_decode(s: &str) -> (r: Result<Vec<u8>, hex::FromHexError>)
    ensures
        match r {
            Ok(v) => is_hex_text(s@) && v@ == unhex(s@),
            Err(_) => !is_hex_text(s@),
        },
{
    hex::decode(s)
}

/// Relies on `Display` for `hex::FromHexError`: only the wording of
/// the failure report.
#[verifier::external_body]
pub(crate) fn hex_failure_text(e: &hex::FromHexError) -> String {
    format!("Failed to convert to ciphertext from hex for decoding: {}", e)
}

/// What `String::from_utf8_lossy` yields for a byte sequence: a
/// function of the bytes alone.
pub uninterp spec fn lossy_chars(b: Seq<u8>) -> Seq<char>;

/// Relies on `String::from_utf8_lossy`: the result depends on the
/// bytes alone, and valid UTF-8 comes back as exactly the text it
/// encodes.
#[verifier::external_body]
pub(crate) fn bytes_to_text(b: &Vec<u8>) -> (r: String)
    ensures
        r@ == lossy_chars(b@),
        valid_utf8(b@) ==> r@ == decode_utf8(b@),
{
    String::from_utf8_lossy(b).into_owned()
}

/// Encodes a message into the integer domain: its UTF-8 bytes read as
/// a big-endian integer, which must be strictly below the modulus.
pub fn encode_message(text: &str, modulus: &BigUint) -> (r: Result<BigUint, RSAError>)
    ensures
        match r {
            Ok(m) => nat_of(m) == be_nat(encode_utf8(text@)) && nat_of(m) < nat_of(*modulus),
            Err(e) => e is MessageSizeLimitExceededError && be_nat(encode_utf8(text@)) >= nat_of(
                *modulus,
            ),
        },
{
    let m = bu_from_bytes_be(text.as_bytes());
    if bu_lt(&m, modulus) {
        Ok(m)
    } else {
        Err(
            RSAError::MessageSizeLimitExceededError(
                "Message read as an integer must be strictly below the modulus".to_owned(),
            ),
        )
    }
}

/// Decodes an integer back to text: its minimal big-endian bytes, read
/// as UTF-8 with invalid sequences replaced as `from_utf8_lossy` does.
pub fn decode_message(value: &BigUint) -> (r: String)
    ensures
        r@ == lossy_chars(min_be(nat_of(*value))),
        valid_utf8(min_be(nat_of(*value))) ==> r@ == decode_utf8(min_be(nat_of(*value))),
{
    let bytes = bu_to_bytes_be(value);
    bytes_to_text(&bytes)
}

/// A hexadecimal digit written by `hex_char` reads back as its value.
proof fn lemma_hex_char(v: int)
    requires
        0 <= v < 16,
    ensures
        is_hex_digit(hex_char(v)),
        hex_digit_val(hex_char(v)) == v,
{
}

/// Transport round trip: decoding the hexadecimal encoding of any byte
/// sequence gives the bytes back.
pub proof fn lemma_hex_round_trip(b: Seq<u8>)
    ensures
        is_hex_text(hex_of(b)),
        unhex(hex_of(b)) == b,
    decreases b.len(),
{
    if b.len() == 0 {
        assert(unhex(hex_of(b)) =~= b);
    } else {
        lemma_hex_round_trip(b.drop_last());
        let t = hex_of(b.drop_last());
        let s = hex_of(b);
        let x = b.last();
        lemma_hex_char(x as int / 16);
        lemma_hex_char(x as int % 16);
        assert(s.len() == t.len() + 2);
        assert(s[s.len() - 2] == hex_char(x as int / 16) && s[s.len() - 1] == hex_char(
            x as int % 16,
        ));
        assert forall|i: int| 0 <= i < s.len() implies is_hex_digit(s[i]) by {
            if i < t.len() {
                assert(s[i] == t[i]);
            }
        }
        assert(s.drop_last().drop_last() =~= t);
        lemma_fundamental_div_mod(x as int, 16);
        assert(unhex(s) =~= b);
    }
}

} // verus!
