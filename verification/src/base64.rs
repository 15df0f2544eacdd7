//! Base64 encoding of an opaque byte sequence into a binary-safe ASCII token.
//!
//! Input bytes are grouped in threes; each full group's 24 bits become four
//! 6-bit values mapped into the standard 64-character alphabet. A final
//! partial group of one or two bytes is zero-padded on the right and the
//! four-character group is completed with `=` padding. Encoding never fails,
//! and decoding the output recovers the input byte for byte.

use vstd::prelude::*;
use vstd::string::StringSliceAdditionalSpecFns;

use crate::text::{all_ascii, ascii_to_string, chars_of};

verus! {

/// The standard base64 alphabet: the character for a 6-bit value, as an
/// ASCII byte. Values 0-25 map to `A`-`Z`, 26-51 to `a`-`z`, 52-61 to
/// `0`-`9`, 62 to `+` and 63 to `/`.
pub open spec fn b64_char(n: int) -> u8
    recommends
        0 <= n < 64,
{
    if n < 26 {
        (65 + n) as u8
    } else if n < 52 {
        (71 + n) as u8
    } else if n < 62 {
        (n - 4) as u8
    } else if n == 62 {
        43u8
    } else {
        47u8
    }
}

/// The 6-bit value of an alphabet character given as an ASCII byte.
pub open spec fn b64_value(c: u8) -> int {
    if 65 <= c <= 90 {
        c - 65
    } else if 97 <= c <= 122 {
        c - 71
    } else if 48 <= c <= 57 {
        c + 4
    } else if c == 43 {
        62
    } else if c == 47 {
        63
    } else {
        0
    }
}

/// A byte of the base64 alphabet (padding is not part of the alphabet).
pub open spec fn is_alphabet_byte(b: u8) -> bool {
    (65 <= b <= 90) || (97 <= b <= 122) || (48 <= b <= 57) || b == 43 || b == 47
}

/// Four characters for a full group of three bytes.
pub open spec fn group3(a: u8, b: u8, c: u8) -> Seq<u8> {
    seq![
        b64_char(a as int / 4),
        b64_char((a as int % 4) * 16 + b as int / 16),
        b64_char((b as int % 16) * 4 + c as int / 64),
        b64_char(c as int % 64),
    ]
}

/// Three characters and one `=` for a trailing group of two bytes.
pub open spec fn group2(a: u8, b: u8) -> Seq<u8> {
    seq![
        b64_char(a as int / 4),
        b64_char((a as int % 4) * 16 + b as int / 16),
        b64_char((b as int % 16) * 4),
        61u8,
    ]
}

/// Two characters and two `=` for a trailing group of one byte.
pub open spec fn group1(a: u8) -> Seq<u8> {
    seq![b64_char(a as int / 4), b64_char((a as int % 4) * 16), 61u8, 61u8]
}

/// The base64 encoding of a byte sequence: full groups of three in order,
/// then the padded encoding of whatever remains.
pub open spec fn base64_encoded(bytes: Seq<u8>) -> Seq<u8>
    decreases bytes.len(),
{
    if bytes.len() == 0 {
        Seq::empty()
    } else if bytes.len() == 1 {
        group1(bytes[0])
    } else if bytes.len() == 2 {
        group2(bytes[0], bytes[1])
    } else {
        group3(bytes[0], bytes[1], bytes[2]) + base64_encoded(bytes.skip(3))
    }
}

/// Base64 decoding of four-character groups: `=` padding in the third or
/// fourth position ends the data after one or two bytes respectively.
pub open spec fn base64_decoded(s: Seq<u8>) -> Seq<u8>
    decreases s.len(),
{
    if s.len() < 4 {
        Seq::empty()
    } else {
        let n0 = b64_value(s[0]);
        let n1 = b64_value(s[1]);
        if s[2] == 61 {
            seq![(n0 * 4 + n1 / 16) as u8]
        } else {
            let n2 = b64_value(s[2]);
            if s[3] == 61 {
                seq![(n0 * 4 + n1 / 16) as u8, ((n1 % 16) * 16 + n2 / 4) as u8]
            } else {
                let n3 = b64_value(s[3]);
                seq![
                    (n0 * 4 + n1 / 16) as u8,
                    ((n1 % 16) * 16 + n2 / 4) as u8,
                    ((n2 % 4) * 64 + n3) as u8,
                ] + base64_decoded(s.skip(4))
            }
        }
    }
}

/// An alphabet character spells the 6-bit value it was chosen for, is never
/// mistaken for padding, and is ASCII.
proof fn lemma_b64_char_value(n: int)
    requires
        0 <= n < 64,
    ensures
        is_alphabet_byte(b64_char(n)),
        b64_char(n) != 61,
        b64_value(b64_char(n)) == n,
{
}

/// The four 6-bit values of a full group determine its three bytes.
proof fn lemma_group3_values(a: u8, b: u8, c: u8)
    ensures
        0 <= a as int / 4 < 64,
        0 <= (a as int % 4) * 16 + b as int / 16 < 64,
        0 <= (b as int % 16) * 4 + c as int / 64 < 64,
        0 <= c as int % 64 < 64,
        (a as int / 4) * 4 + ((a as int % 4) * 16 + b as int / 16) / 16 == a as int,
        (((a as int % 4) * 16 + b as int / 16) % 16) * 16 + ((b as int % 16) * 4 + c as int / 64)
            / 4 == b as int,
        (((b as int % 16) * 4 + c as int / 64) % 4) * 64 + c as int % 64 == c as int,
{
}

/// Base64 round-trips: decoding the encoding of any byte sequence gives back
/// exactly that sequence.
pub proof fn lemma_base64_round_trip(bytes: Seq<u8>)
    ensures
        base64_decoded(base64_encoded(bytes)) == bytes,
    decreases bytes.len(),
{
    if bytes.len() == 0 {
        assert(base64_decoded(base64_encoded(bytes)) =~= bytes);
    } else if bytes.len() == 1 {
        let a = bytes[0];
        lemma_group3_values(a, 0, 0);
        lemma_b64_char_value(a as int / 4);
        lemma_b64_char_value((a as int % 4) * 16);
        assert(base64_decoded(group1(a)) =~= bytes);
    } else if bytes.len() == 2 {
        let a = bytes[0];
        let b = bytes[1];
        lemma_group3_values(a, b, 0);
        lemma_b64_char_value(a as int / 4);
        lemma_b64_char_value((a as int % 4) * 16 + b as int / 16);
        lemma_b64_char_value((b as int % 16) * 4);
        assert(base64_decoded(group2(a, b)) =~= bytes);
    } else {
        let a = bytes[0];
        let b = bytes[1];
        let c = bytes[2];
        let head = group3(a, b, c);
        let tail = base64_encoded(bytes.skip(3));
        let s = head + tail;
        lemma_group3_values(a, b, c);
        lemma_b64_char_value(a as int / 4);
        lemma_b64_char_value((a as int % 4) * 16 + b as int / 16);
        lemma_b64_char_value((b as int % 16) * 4 + c as int / 64);
        lemma_b64_char_value(c as int % 64);
        lemma_base64_round_trip(bytes.skip(3));
        assert(s.len() >= 4);
        assert(s[0] == head[0] && s[1] == head[1] && s[2] == head[2] && s[3] == head[3]);
        assert(s.skip(4) =~= tail);
        assert(base64_decoded(s) =~= seq![a, b, c] + bytes.skip(3));
        assert(seq![a, b, c] + bytes.skip(3) =~= bytes);
    }
}

/// The encoded length is always `4 * ceil(n / 3)` for input length `n`,
/// zero-length input giving zero-length output.
pub proof fn lemma_base64_length(bytes: Seq<u8>)
    ensures
        base64_encoded(bytes).len() == 4 * ((bytes.len() + 2) / 3),
    decreases bytes.len(),
{
    if bytes.len() >= 3 {
        lemma_base64_length(bytes.skip(3));
    }
}

/// Every byte of the output is an alphabet character or `=`, and `=` appears
/// exactly as the input length's remainder demands: not at all when the
/// input length is a multiple of three, twice at the very end for a
/// remainder of one, once at the very end for a remainder of two.
pub proof fn lemma_base64_shape(bytes: Seq<u8>)
    ensures
        forall|i: int|
            0 <= i < base64_encoded(bytes).len() ==> is_alphabet_byte(
                #[trigger] base64_encoded(bytes)[i],
            ) || base64_encoded(bytes)[i] == 61,
        bytes.len() % 3 == 0 ==> forall|i: int|
            0 <= i < base64_encoded(bytes).len() ==> is_alphabet_byte(
                #[trigger] base64_encoded(bytes)[i],
            ),
        bytes.len() % 3 == 1 ==> {
            let s = base64_encoded(bytes);
            s[s.len() - 1] == 61 && s[s.len() - 2] == 61 && forall|i: int|
                0 <= i < s.len() - 2 ==> is_alphabet_byte(#[trigger] s[i])
        },
        bytes.len() % 3 == 2 ==> {
            let s = base64_encoded(bytes);
            s[s.len() - 1] == 61 && forall|i: int|
                0 <= i < s.len() - 1 ==> is_alphabet_byte(#[trigger] s[i])
        },
    decreases bytes.len(),
{
    if bytes.len() == 0 {
    } else if bytes.len() == 1 {
        let a = bytes[0];
        lemma_b64_char_value(a as int / 4);
        lemma_b64_char_value((a as int % 4) * 16);
    } else if bytes.len() == 2 {
        let a = bytes[0];
        let b = bytes[1];
        lemma_b64_char_value(a as int / 4);
        lemma_b64_char_value((a as int % 4) * 16 + b as int / 16);
        lemma_b64_char_value((b as int % 16) * 4);
    } else {
        let a = bytes[0];
        let b = bytes[1];
        let c = bytes[2];
        let head = group3(a, b, c);
        let tail = base64_encoded(bytes.skip(3));
        lemma_b64_char_value(a as int / 4);
        lemma_b64_char_value((a as int % 4) * 16 + b as int / 16);
        lemma_b64_char_value((b as int % 16) * 4 + c as int / 64);
        lemma_b64_char_value(c as int % 64);
        lemma_base64_shape(bytes.skip(3));
        lemma_base64_length(bytes.skip(3));
        assert(bytes.skip(3).len() % 3 == bytes.len() % 3);
        assert(forall|i: int|
            4 <= i < (head + tail).len() ==> (head + tail)[i] == #[trigger] tail[i - 4]);
    }
}

/// Base64 output is ASCII.
pub proof fn lemma_base64_ascii(bytes: Seq<u8>)
    ensures
        all_ascii(base64_encoded(bytes)),
{
    lemma_base64_shape(bytes);
}

/// The alphabet character for a 6-bit value, as `b64_char` describes it.
fn b64_char_exec(n: u8) -> (r: u8)
    requires
        n < 64,
    ensures
        r == b64_char(n as int),
{
    if n < 26 {
        65 + n
    } else if n < 52 {
        71 + n
    } else if n < 62 {
        n - 4
    } else if n == 62 {
        43
    } else {
        47
    }
}

/// Base64-encodes a byte sequence. Total: every input, including the empty
/// one, has a defined output, whose length is `4 * ceil(n / 3)`.
pub fn base64_encode_bytes(input: &[u8]) -> (out: Vec<u8>)
    ensures
        out@ == base64_encoded(input@),
        out@.len() == 4 * ((input@.len() + 2) / 3),
{
    let mut out: Vec<u8> = Vec::new();
    let mut i: usize = 0;
    proof {
        assert(input@.skip(0) =~= input@);
    }
    while input.len() >= 3 && i <= input.len() - 3
        invariant
            i <= input.len(),
            base64_encoded(input@) == out@ + base64_encoded(input@.skip(i as int)),
        decreases input.len() - i,
    {
        let a = input[i];
        let b = input[i + 1];
        let c = input[i + 2];
        let ghost rest = input@.skip(i as int);
        let ghost old_out = out@;
        out.push(b64_char_exec(a / 4));
        out.push(b64_char_exec((a % 4) * 16 + b / 16));
        out.push(b64_char_exec((b % 16) * 4 + c / 64));
        out.push(b64_char_exec(c % 64));
        proof {
            assert(rest.len() >= 3);
            assert(rest[0] == a && rest[1] == b && rest[2] == c);
            assert(rest.skip(3) =~= input@.skip(i + 3));
            assert(base64_encoded(rest) == group3(a, b, c) + base64_encoded(input@.skip(i + 3)));
            assert(out@ =~= old_out + group3(a, b, c)) by {
                assert(group3(a, b, c).len() == 4);
            }
            assert(base64_encoded(input@) =~= out@ + base64_encoded(input@.skip(i + 3)));
        }
        i = i + 3;
    }
    let ghost rest = input@.skip(i as int);
    let remainder = input.len() - i;
    if remainder == 1 {
        let a = input[i];
        out.push(b64_char_exec(a / 4));
        out.push(b64_char_exec((a % 4) * 16));
        out.push(61);
        out.push(61);
        proof {
            assert(rest.len() == 1 && rest[0] == a);
            assert(base64_encoded(rest) == group1(a));
            assert(base64_encoded(input@) =~= out@);
        }
    } else if remainder == 2 {
        let a = input[i];
        let b = input[i + 1];
        out.push(b64_char_exec(a / 4));
        out.push(b64_char_exec((a % 4) * 16 + b / 16));
        out.push(b64_char_exec((b % 16) * 4));
        out.push(61);
        proof {
            assert(rest.len() == 2 && rest[0] == a && rest[1] == b);
            assert(base64_encoded(rest) == group2(a, b));
            assert(base64_encoded(input@) =~= out@);
        }
    } else {
        proof {
            assert(rest.len() == 0);
            assert(base64_encoded(input@) =~= out@);
        }
    }
    proof {
        lemma_base64_length(input@);
    }
    out
}

/// Base64-encodes the UTF-8 bytes of a string into an ASCII token.
pub fn base64_encode(input: &str) -> (r: String)
    ensures
        r@ == chars_of(base64_encoded(input.spec_bytes())),
{
    let bytes = input.as_bytes();
    let encoded = base64_encode_bytes(bytes);
    proof {
        lemma_base64_ascii(input.spec_bytes());
    }
    ascii_to_string(encoded)
}

} // verus!
