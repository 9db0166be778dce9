//! Request identity: 128 random bits rendered as 32 lowercase hexadecimal
//! characters, generated fresh for every session.

use vstd::prelude::*;

use crate::token::digit_char;
use rand::RngCore;

verus! {

/// The character for one digit value below sixteen, lowercase letters.
pub open spec fn digit_char_lower(d: int) -> char {
    if d < 10 {
        digit_char(d)
    } else if d == 10 {
        'a'
    } else if d == 11 {
        'b'
    } else if d == 12 {
        'c'
    } else if d == 13 {
        'd'
    } else if d == 14 {
        'e'
    } else {
        'f'
    }
}

/// Lowercase hexadecimal of a byte string: two digits per byte, high nibble
/// first, no separators.
pub open spec fn hex_lower_chars(b: Seq<u8>) -> Seq<char> {
    Seq::new(
        2 * b.len(),
        |i: int|
            if i % 2 == 0 {
                digit_char_lower(b[i / 2] as int / 16)
            } else {
                digit_char_lower(b[i / 2] as int % 16)
            },
    )
}

/// Relies on rand::thread_rng and RngCore::fill_bytes: sixteen bytes are
/// drawn; nothing is assumed of their values.
#[verifier::external_body]
fn random_bytes_16() -> (r: Vec<u8>)
    ensures
        r@.len() == 16,
{
    let mut buf = [0u8; 16];
    rand::thread_rng().fill_bytes(&mut buf);
    buf.to_vec()
}

/// Relies on hex::encode: two lowercase hexadecimal digits for each byte,
/// high nibble first.
#[verifier::external_body]
fn hex_encode_lower(b: &Vec<u8>) -> (r: String)
    ensures
        r@ == hex_lower_chars(b@),
{
    hex::encode(b.as_slice())
}

/// A fresh request identity: the lowercase hexadecimal form of sixteen
/// random bytes, 32 characters long.
pub fn random_request_id() -> (r: String)
    ensures
        r@.len() == 32,
        exists|b: Seq<u8>| b.len() == 16 && r@ == hex_lower_chars(b),
{
    let buf = random_bytes_16();
    let r = hex_encode_lower(&buf);
    proof {
        assert(buf@.len() == 16 && r@ == hex_lower_chars(buf@));
    }
    r
}

} // verus!
