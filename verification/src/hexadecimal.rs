//! Bytes as hexadecimal digits, by the `hex` crate.

use crate::client_address::decode::hex_value;
use crate::client_address::encode::hex_digit;
use vstd::prelude::*;

verus! {

#[verifier::external_type_specification]
#[verifier::external_body]
pub struct ExFromHexError(hex::FromHexError);

/// The bytes as lower-case hexadecimal digits, two for each byte.
pub open spec fn hex_text(bytes: Seq<u8>) -> Seq<char>
    decreases bytes.len(),
{
    if bytes.len() == 0 {
        Seq::empty()
    } else {
        seq![hex_digit(bytes[0] / 16), hex_digit(bytes[0] % 16)] + hex_text(bytes.skip(1))
    }
}

/// The bytes that hexadecimal digits of either case stand for, two digits for each byte.
/// There are none when the number of digits is odd or one of them is no digit.
pub open spec fn hex_bytes(digits: Seq<u8>) -> Option<Seq<u8>>
    decreases digits.len(),
{
    if digits.len() == 0 {
        Some(Seq::empty())
    } else if digits.len() == 1 {
        None
    } else {
        match (hex_value(digits[0]), hex_value(digits[1]), hex_bytes(digits.skip(2))) {
            (Some(high), Some(low), Some(rest)) => Some(seq![(high * 16 + low) as u8] + rest),
            _ => None,
        }
    }
}

/// `hex::encode`: the bytes as lower-case hexadecimal digits, two for each byte.
#[verifier::external_body]
pub(crate) fn hex_of(data: &[u8]) -> (text: String)
    ensures
        text@ == hex_text(data@),
{
    hex::encode(data)
}

/// `hex::decode`: the bytes that the digits stand for. It fails when the number of digits
/// is odd or one of them is no hexadecimal digit.
#[verifier::external_body]
pub(crate) fn hex_decode(digits: &[u8]) -> (bytes: Result<Vec<u8>, hex::FromHexError>)
    ensures
        match bytes {
            Ok(bytes) => hex_bytes(digits@) == Some(bytes@),
            Err(_) => hex_bytes(digits@).is_none(),
        },
{
    hex::decode(digits)
}

/// What digits stand for has half their length.
pub proof fn lemma_hex_bytes_len(digits: Seq<u8>)
    ensures
        hex_bytes(digits).is_some() ==> 2 * hex_bytes(digits).unwrap().len() == digits.len(),
    decreases digits.len(),
{
    if digits.len() >= 2 {
        lemma_hex_bytes_len(digits.skip(2));
    }
}

} // verus!
