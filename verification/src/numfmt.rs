//! Decimal rendering of the unsigned integers that the document interpolates:
//! size metrics and date fields.

use vstd::prelude::*;
use vstd::string::StringExecFns;

use crate::text::{all_ascii, ascii_to_string, chars_of};

verus! {

/// The character for a single decimal digit.
pub open spec fn digit_char(n: int) -> char
    recommends
        0 <= n < 10,
{
    (48 + n) as char
}

/// The usual decimal rendering of a nonnegative integer: most significant
/// digit first, no leading zeros, zero itself rendered as one digit.
pub open spec fn decimal_chars(n: int) -> Seq<char>
    recommends
        n >= 0,
    decreases n,
{
    if n < 10 {
        seq![digit_char(n)]
    } else {
        decimal_chars(n / 10) + seq![digit_char(n % 10)]
    }
}

/// Decimal rendering padded on the left with `0` to at least two digits.
pub open spec fn padded2_chars(n: int) -> Seq<char>
    recommends
        n >= 0,
{
    if n < 10 {
        seq!['0'] + decimal_chars(n)
    } else {
        decimal_chars(n)
    }
}

/// Renders an integer in decimal, exactly as `decimal_chars` describes it.
pub fn u64_to_decimal(n: u64) -> (r: String)
    ensures
        r@ == decimal_chars(n as int),
{
    let mut digits: Vec<u8> = Vec::new();
    let mut m: u64 = n;
    loop
        invariant_except_break
            decimal_chars(n as int) == decimal_chars(m as int) + chars_of(digits@),
        invariant
            all_ascii(digits@),
        ensures
            decimal_chars(n as int) == chars_of(digits@),
        decreases m,
    {
        let d: u8 = (m % 10) as u8;
        let ghost old_digits = digits@;
        let ghost m0 = m as int;
        digits.insert(0, 48 + d);
        proof {
            assert(digits@ =~= seq![(48 + d) as u8] + old_digits);
            assert(chars_of(digits@) =~= seq![digit_char(m0 % 10)] + chars_of(old_digits));
            if m0 < 10 {
                assert(decimal_chars(m0) == seq![digit_char(m0)]);
                assert(decimal_chars(n as int) =~= chars_of(digits@));
            } else {
                assert(decimal_chars(m0) == decimal_chars(m0 / 10) + seq![digit_char(m0 % 10)]);
                assert(decimal_chars(n as int) =~= decimal_chars(m0 / 10) + chars_of(digits@));
            }
        }
        m = m / 10;
        if m == 0 {
            break;
        }
    }
    ascii_to_string(digits)
}

/// Renders an integer in decimal padded to at least two digits, exactly as
/// `padded2_chars` describes it.
pub fn u64_to_decimal2(n: u64) -> (r: String)
    ensures
        r@ == padded2_chars(n as int),
{
    let plain = u64_to_decimal(n);
    if n < 10 {
        let mut padded = String::new();
        padded.append("0");
        padded.append(plain.as_str());
        proof {
            reveal_strlit("0");
            assert(padded@ =~= padded2_chars(n as int));
        }
        padded
    } else {
        plain
    }
}

} // verus!
