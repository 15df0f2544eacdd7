//! The generated date label: a coarse `YYYY.MM.DD` string derived from
//! wall-clock seconds with fixed-length years (365 days) and months
//! (30 days). Deliberately calendar-free: the label is descriptive metadata,
//! not an authoritative date, and drifts from the Gregorian calendar as time
//! since the epoch grows.

use vstd::arithmetic::div_mod::lemma_fundamental_div_mod;
use vstd::prelude::*;
use vstd::string::StringExecFns;

use crate::numfmt::{decimal_chars, padded2_chars, u64_to_decimal, u64_to_decimal2};

verus! {

/// Seconds in a day.
pub const SECONDS_PER_DAY: u64 = 86400;

/// Days in the approximation's fixed-length year.
pub const DAYS_PER_YEAR: u64 = 365;

/// Days in the approximation's fixed-length month.
pub const DAYS_PER_MONTH: u64 = 30;

/// The `YYYY.MM.DD` label for a count of seconds since the Unix epoch:
/// whole days since the epoch, split into 365-day years and 30-day months,
/// with month and day starting at one and padded to two digits.
pub open spec fn date_label(secs: int) -> Seq<char>
    recommends
        secs >= 0,
{
    let days = secs / (SECONDS_PER_DAY as int);
    let year = 1970 + days / (DAYS_PER_YEAR as int);
    let rem = days % (DAYS_PER_YEAR as int);
    let month = rem / (DAYS_PER_MONTH as int) + 1;
    let day = rem % (DAYS_PER_MONTH as int) + 1;
    decimal_chars(year) + seq!['.'] + padded2_chars(month) + seq!['.'] + padded2_chars(day)
}

/// Renders the date label for a given count of seconds since the epoch,
/// exactly as `date_label` describes it.
pub fn date_label_from_seconds(secs: u64) -> (r: String)
    ensures
        r@ == date_label(secs as int),
{
    let days: u64 = secs / SECONDS_PER_DAY;
    proof {
        lemma_fundamental_div_mod(secs as int, SECONDS_PER_DAY as int);
        lemma_fundamental_div_mod(days as int, DAYS_PER_YEAR as int);
    }
    let year: u64 = 1970 + days / DAYS_PER_YEAR;
    let rem: u64 = days % DAYS_PER_YEAR;
    let month: u64 = rem / DAYS_PER_MONTH + 1;
    let day: u64 = rem % DAYS_PER_MONTH + 1;
    let mut out = u64_to_decimal(year);
    out.append(".");
    let month_text = u64_to_decimal2(month);
    out.append(month_text.as_str());
    out.append(".");
    let day_text = u64_to_decimal2(day);
    out.append(day_text.as_str());
    proof {
        reveal_strlit(".");
        assert(out@ =~= date_label(secs as int));
    }
    out
}

/// Relies on `std::time::SystemTime`: `now` read once and measured against
/// `UNIX_EPOCH` with `duration_since`, converted to whole seconds. Where the
/// clock is unavailable or reads before the epoch, the zero-duration
/// fallback of `unwrap_or_default` stands in, so the call always returns.
/// Nothing can be promised of a clock's value.
#[verifier::external_body]
fn unix_seconds_now() -> u64 {
    std::time::SystemTime::now()
        .duration_since(std::time::UNIX_EPOCH)
        .unwrap_or_default()
        .as_secs()
}

/// The date label for the present moment, from the system clock and nothing
/// else: some count of seconds since the epoch rendered as `date_label`
/// says. Never fails; an unavailable clock yields the epoch-start label.
pub fn chrono_free_timestamp() -> (r: String)
    ensures
        exists|secs: u64| r@ == date_label(secs as int),
{
    let secs = unix_seconds_now();
    let r = date_label_from_seconds(secs);
    proof {
        assert(r@ == date_label(secs as int));
    }
    r
}

} // verus!
