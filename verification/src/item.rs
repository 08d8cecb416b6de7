//! Filter items as the user writes them: an encoded address, whose payload the
//! caller has decoded, or a hex byte string.

use vstd::prelude::*;
use crate::error::Error;

verus! {

/// The length of a hash such as a transaction id, which is written in the
/// reverse of its wire order.
pub const HASH_LEN: usize = 32;

/// The value of a hex digit, of either case.
pub open spec fn hex_digit_value(c: char) -> Option<u8> {
    let n = c as u32;
    if '0' as u32 <= n <= '9' as u32 {
        Some((n - '0' as u32) as u8)
    } else if 'A' as u32 <= n <= 'F' as u32 {
        Some((n - 'A' as u32 + 10) as u8)
    } else if 'a' as u32 <= n <= 'f' as u32 {
        Some((n - 'a' as u32 + 10) as u8)
    } else {
        None
    }
}

/// Whether a text is a hex byte string: an even number of hex digits.
pub open spec fn is_hex_text(text: Seq<char>) -> bool {
    &&& text.len() % 2 == 0
    &&& forall|i: int| 0 <= i < text.len() ==> (#[trigger] hex_digit_value(text[i])) is Some
}

/// The bytes that a hex byte string stands for: each pair of digits is one
/// byte, the first digit its upper half.
pub open spec fn hex_bytes(text: Seq<char>) -> Seq<u8>
    recommends
        is_hex_text(text),
{
    Seq::new(
        text.len() / 2,
        |i: int|
            (16 * hex_digit_value(text[2 * i]).unwrap() + hex_digit_value(
                text[2 * i + 1],
            ).unwrap()) as u8,
    )
}

/// The error of `hex::decode`.
#[verifier::external_type_specification]
#[verifier::external_body]
pub struct ExFromHexError(hex::FromHexError);

/// Calls `hex::decode` on the text.
///
/// Trusted: the call succeeds exactly on an even number of hex digits, and then
/// returns one byte for each pair, the first digit in the upper four bits. It
/// fails on an odd length and on any other character.
#[verifier::external_body]
pub(crate) fn hex_decode(text: &str) -> (r: Result<Vec<u8>, hex::FromHexError>)
    ensures
        r is Ok <==> is_hex_text(text@),
        r matches Ok(bytes) ==> bytes@ == hex_bytes(text@),
{
    hex::decode(text)
}

/// The bytes that go into the filter for an item: the payload of the address
/// where the text is one, else the bytes of the hex string, reversed when they
/// have the length of a hash; nothing where the text is neither.
pub open spec fn item_bytes(raw: Seq<char>, address_payload: Option<Seq<u8>>) -> Option<Seq<u8>> {
    match address_payload {
        Some(payload) => Some(payload),
        None => if is_hex_text(raw) {
            if hex_bytes(raw).len() == HASH_LEN {
                Some(hex_bytes(raw).reverse())
            } else {
                Some(hex_bytes(raw))
            }
        } else {
            None
        },
    }
}

/// The bytes in reverse order.
pub fn reversed(bytes: &[u8]) -> (r: Vec<u8>)
    ensures
        r@ == bytes@.reverse(),
{
    let mut out: Vec<u8> = Vec::new();
    let mut left: usize = bytes.len();
    while left > 0
        invariant
            left <= bytes@.len(),
            out@.len() == bytes@.len() - left,
            forall|i: int| 0 <= i < out@.len() ==> out@[i] == bytes@[bytes@.len() - 1 - i],
        decreases left,
    {
        left -= 1;
        out.push(bytes[left]);
    }
    assert(out@ =~= bytes@.reverse());
    out
}

/// Decodes a filter item. `address_payload` is what decoding the text as an
/// encoded address gave, if it is one; otherwise the text is read as a hex byte
/// string. Fails with `DecodeError` when it is neither.
pub fn decode_item(raw: &str, address_payload: Option<Vec<u8>>) -> (r: Result<Vec<u8>, Error>)
    ensures
        match r {
            Ok(bytes) => item_bytes(raw@, vec_view(address_payload)) == Some(bytes@),
            Err(e) => e == Error::DecodeError && item_bytes(raw@, vec_view(address_payload)) is None,
        },
{
    match address_payload {
        Some(payload) => Ok(payload),
        None => match hex_decode(raw) {
            Ok(bytes) => {
                if bytes.len() == HASH_LEN {
                    Ok(reversed(bytes.as_slice()))
                } else {
                    Ok(bytes)
                }
            },
            Err(_) => Err(Error::DecodeError),
        },
    }
}

/// An optional byte string as plain values.
pub open spec fn vec_view(bytes: Option<Vec<u8>>) -> Option<Seq<u8>> {
    match bytes {
        Some(v) => Some(v@),
        None => None,
    }
}

} // verus!
