//! Percent-encoding of an opaque byte sequence into a URI-safe token.
//!
//! Bytes that are RFC 3986 unreserved characters pass through unchanged;
//! every other byte becomes a three-byte escape `%XX` with `XX` the byte's
//! value in uppercase hexadecimal. Every byte value has a defined mapping,
//! so encoding never fails, and decoding the output recovers the input
//! byte for byte.

use vstd::prelude::*;
use vstd::string::StringSliceAdditionalSpecFns;

use crate::text::{all_ascii, ascii_to_string, chars_of};

verus! {

/// RFC 3986 unreserved characters: ASCII letters, digits, `-`, `_`, `.`, `~`.
pub open spec fn is_unreserved(b: u8) -> bool {
    (65 <= b <= 90) || (97 <= b <= 122) || (48 <= b <= 57) || b == 45 || b == 95 || b == 46
        || b == 126
}

/// The uppercase hexadecimal digit for a value below 16, as an ASCII byte.
pub open spec fn hex_digit(n: int) -> u8
    recommends
        0 <= n < 16,
{
    if n < 10 {
        (48 + n) as u8
    } else {
        (55 + n) as u8
    }
}

/// The value of an uppercase hexadecimal digit given as an ASCII byte.
pub open spec fn hex_value(d: u8) -> int {
    if 48 <= d <= 57 {
        d - 48
    } else if 65 <= d <= 70 {
        d - 55
    } else {
        0
    }
}

/// How a single byte is encoded: itself if unreserved, else `%XX`.
pub open spec fn encoded_byte(b: u8) -> Seq<u8> {
    if is_unreserved(b) {
        seq![b]
    } else {
        seq![37u8, hex_digit(b as int / 16), hex_digit(b as int % 16)]
    }
}

/// The percent-encoding of a byte sequence: each byte's encoding, in order.
pub open spec fn percent_encoded(bytes: Seq<u8>) -> Seq<u8>
    decreases bytes.len(),
{
    if bytes.len() == 0 {
        Seq::empty()
    } else {
        encoded_byte(bytes[0]) + percent_encoded(bytes.drop_first())
    }
}

/// Percent-decoding: a `%` starting a three-byte escape yields the byte the
/// two hexadecimal digits spell; any other byte yields itself.
pub open spec fn percent_decoded(s: Seq<u8>) -> Seq<u8>
    decreases s.len(),
{
    if s.len() == 0 {
        Seq::empty()
    } else if s[0] == 37 && s.len() >= 3 {
        seq![(hex_value(s[1]) * 16 + hex_value(s[2])) as u8] + percent_decoded(s.skip(3))
    } else {
        seq![s[0]] + percent_decoded(s.skip(1))
    }
}

/// An uppercase hexadecimal digit, as an ASCII byte.
pub open spec fn is_upper_hex_digit(b: u8) -> bool {
    (48 <= b <= 57) || (65 <= b <= 70)
}

/// Every byte of the token is an unreserved character or `%`, and every `%`
/// opens an escape: two uppercase hexadecimal digits follow it.
pub open spec fn is_token(s: Seq<u8>) -> bool {
    &&& forall|i: int| 0 <= i < s.len() ==> is_unreserved(#[trigger] s[i]) || s[i] == 37
    &&& forall|i: int|
        0 <= i < s.len() && #[trigger] s[i] == 37 ==> i + 3 <= s.len() && is_upper_hex_digit(
            s[i + 1],
        ) && is_upper_hex_digit(s[i + 2])
}

/// A hexadecimal digit spells the value it was chosen for.
proof fn lemma_hex_digit_value(n: int)
    requires
        0 <= n < 16,
    ensures
        is_upper_hex_digit(hex_digit(n)),
        hex_value(hex_digit(n)) == n,
{
}

/// Appending one byte to the input appends that byte's encoding to the output.
pub proof fn lemma_percent_encoded_push(bytes: Seq<u8>, b: u8)
    ensures
        percent_encoded(bytes.push(b)) == percent_encoded(bytes) + encoded_byte(b),
    decreases bytes.len(),
{
    let s = bytes.push(b);
    assert(s.len() == bytes.len() + 1);
    assert(s[0] == if bytes.len() == 0 {
        b
    } else {
        bytes[0]
    });
    if bytes.len() == 0 {
        assert(s.drop_first() =~= Seq::<u8>::empty());
        assert(percent_encoded(s) == encoded_byte(b) + percent_encoded(Seq::<u8>::empty()));
        assert(percent_encoded(Seq::<u8>::empty()) == Seq::<u8>::empty());
        assert(percent_encoded(s) =~= percent_encoded(bytes) + encoded_byte(b));
    } else {
        assert(s.drop_first() =~= bytes.drop_first().push(b));
        lemma_percent_encoded_push(bytes.drop_first(), b);
        assert(percent_encoded(s) == encoded_byte(bytes[0]) + (percent_encoded(bytes.drop_first())
            + encoded_byte(b)));
        assert(percent_encoded(s) =~= percent_encoded(bytes) + encoded_byte(b));
    }
}

/// Percent-encoding round-trips: decoding the encoding of any byte sequence
/// gives back exactly that sequence, whatever bytes it holds.
pub proof fn lemma_percent_round_trip(bytes: Seq<u8>)
    ensures
        percent_decoded(percent_encoded(bytes)) == bytes,
    decreases bytes.len(),
{
    if bytes.len() == 0 {
    } else {
        let b = bytes[0];
        let tail = percent_encoded(bytes.drop_first());
        lemma_percent_round_trip(bytes.drop_first());
        if is_unreserved(b) {
            let s = seq![b] + tail;
            assert(percent_encoded(bytes) == s);
            assert(s[0] != 37);
            assert(s.skip(1) =~= tail);
            assert(percent_decoded(percent_encoded(bytes)) =~= bytes);
        } else {
            lemma_hex_digit_value(b as int / 16);
            lemma_hex_digit_value(b as int % 16);
            let s = seq![37u8, hex_digit(b as int / 16), hex_digit(b as int % 16)] + tail;
            assert(percent_encoded(bytes) == s);
            assert(s[0] == 37 && s.len() >= 3);
            assert(hex_value(s[1]) * 16 + hex_value(s[2]) == b as int);
            assert(s.skip(3) =~= tail);
            assert(percent_decoded(percent_encoded(bytes)) =~= bytes);
        }
    }
}

/// The encoded output stays in the token alphabet `[A-Za-z0-9-_.~%]`, and
/// every `%` in it is followed by exactly two uppercase hexadecimal digits.
pub proof fn lemma_percent_alphabet(bytes: Seq<u8>)
    ensures
        is_token(percent_encoded(bytes)),
    decreases bytes.len(),
{
    if bytes.len() == 0 {
    } else {
        let b = bytes[0];
        let head = encoded_byte(b);
        let tail = percent_encoded(bytes.drop_first());
        lemma_percent_alphabet(bytes.drop_first());
        if !is_unreserved(b) {
            lemma_hex_digit_value(b as int / 16);
            lemma_hex_digit_value(b as int % 16);
        }
        assert forall|i: int| 0 <= i < head.len() + tail.len() && #[trigger] (head + tail)[i] == 37
            implies i + 3 <= head.len() + tail.len() && is_upper_hex_digit((head + tail)[i + 1])
            && is_upper_hex_digit((head + tail)[i + 2]) by {
            if i < head.len() {
                assert(!is_unreserved(b) && i == 0);
            } else {
                assert((head + tail)[i] == tail[i - head.len()]);
            }
        }
        assert forall|i: int| 0 <= i < (head + tail).len() implies is_unreserved(
            #[trigger] (head + tail)[i],
        ) || (head + tail)[i] == 37 by {
            if i >= head.len() {
                assert((head + tail)[i] == tail[i - head.len()]);
            }
        }
    }
}

/// The encoded output is between one and three times the input's length:
/// each byte becomes one byte or a three-byte escape.
pub proof fn lemma_percent_length(bytes: Seq<u8>)
    ensures
        bytes.len() <= percent_encoded(bytes).len() <= 3 * bytes.len(),
    decreases bytes.len(),
{
    if bytes.len() > 0 {
        lemma_percent_length(bytes.drop_first());
    }
}

/// The token alphabet is ASCII.
pub proof fn lemma_token_ascii(s: Seq<u8>)
    requires
        is_token(s),
    ensures
        all_ascii(s),
{
}

/// The encoding of one byte, as `encoded_byte` describes it.
fn encode_one(b: u8, out: &mut Vec<u8>)
    ensures
        final(out)@ == old(out)@ + encoded_byte(b),
{
    if (65 <= b && b <= 90) || (97 <= b && b <= 122) || (48 <= b && b <= 57) || b == 45 || b == 95
        || b == 46 || b == 126 {
        out.push(b);
    } else {
        let hi: u8 = b / 16;
        let lo: u8 = b % 16;
        out.push(37);
        out.push(if hi < 10 { 48 + hi } else { 55 + hi });
        out.push(if lo < 10 { 48 + lo } else { 55 + lo });
    }
    assert(out@ =~= old(out)@ + encoded_byte(b));
}

/// Percent-encodes a byte sequence. Total: every byte value has a mapping.
pub fn percent_encode_bytes(input: &[u8]) -> (out: Vec<u8>)
    ensures
        out@ == percent_encoded(input@),
{
    let mut out: Vec<u8> = Vec::new();
    let mut i: usize = 0;
    while i < input.len()
        invariant
            i <= input.len(),
            out@ == percent_encoded(input@.take(i as int)),
        decreases input.len() - i,
    {
        proof {
            lemma_percent_encoded_push(input@.take(i as int), input@[i as int]);
            assert(input@.take(i as int).push(input@[i as int]) =~= input@.take(i + 1));
        }
        encode_one(input[i], &mut out);
        i = i + 1;
    }
    proof {
        assert(input@.take(input@.len() as int) =~= input@);
    }
    out
}

/// Percent-encodes the UTF-8 bytes of a string into a URI-safe token.
///
/// The token holds only unreserved characters and `%XX` escapes, and
/// percent-decoding its bytes gives back the input's UTF-8 bytes exactly.
pub fn url_encode(input: &str) -> (r: String)
    ensures
        r@ == chars_of(percent_encoded(input.spec_bytes())),
{
    let bytes = input.as_bytes();
    let encoded = percent_encode_bytes(bytes);
    proof {
        lemma_percent_alphabet(input.spec_bytes());
        lemma_token_ascii(percent_encoded(input.spec_bytes()));
    }
    ascii_to_string(encoded)
}

} // verus!
