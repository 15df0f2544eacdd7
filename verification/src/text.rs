//! Bytes and the characters they stand for.
//!
//! Both encoders produce ASCII bytes; the documents they are embedded in are
//! `String`s. This module fixes the correspondence: an ASCII byte stands for
//! the character with the same value.

use vstd::prelude::*;

verus! {

/// The characters that a sequence of ASCII bytes stands for, one per byte.
pub open spec fn chars_of(bytes: Seq<u8>) -> Seq<char> {
    bytes.map_values(|b: u8| b as char)
}

/// Every byte is in the ASCII range.
pub open spec fn all_ascii(bytes: Seq<u8>) -> bool {
    forall|i: int| 0 <= i < bytes.len() ==> bytes[i] < 0x80
}

/// Relies on `String::from_utf8`: a sequence of bytes below 0x80 is valid
/// UTF-8 and decodes to the characters with exactly those values.
#[verifier::external_body]
pub fn ascii_to_string(bytes: Vec<u8>) -> (r: String)
    requires
        all_ascii(bytes@),
    ensures
        r@ == chars_of(bytes@),
{
    String::from_utf8(bytes).unwrap_or_default()
}

} // verus!
