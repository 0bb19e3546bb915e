//! Dates as plain values.
//!
//! The upstream site renders dates as `"<day> <month-name> <year>"`
//! (for example `05 Jan 2023`). This module parses that shape into a calendar
//! date and renders it back out in RFC3339 form at a fixed zero offset.
//! Unparsable dates fall back to the epoch sentinel rather than failing the
//! enclosing record.

use vstd::prelude::*;

use crate::text::{
    dec_val, digit_char, find_eq, is_digits, lemma_dec_val_nonneg, lemma_dec_val_upper, pow10,
    scan_eq, str_eq, digit_str, parse_u32_digits,
};

verus! {

/// A calendar date, held as plain values. Timestamps are normalized to a
/// fixed zero offset; the time of day is always midnight.
#[derive(Debug, Clone, Copy, PartialEq, Eq, Structural)]
pub struct AoDate {
    pub year: u32,
    pub month: u32,
    pub day: u32,
}

/// The epoch sentinel that unparsable dates fall back to.
pub open spec fn sentinel_date() -> AoDate {
    AoDate { year: 1970, month: 1, day: 1 }
}

/// The Gregorian leap-year rule.
pub open spec fn is_leap_year(y: int) -> bool {
    y % 4 == 0 && (y % 100 != 0 || y % 400 == 0)
}

/// How many days the given month of the given year has.
pub open spec fn days_in_month(y: int, m: int) -> int {
    if m == 2 {
        if is_leap_year(y) {
            29
        } else {
            28
        }
    } else if m == 4 || m == 6 || m == 9 || m == 11 {
        30
    } else {
        31
    }
}

/// A date the parser can produce: a real calendar date with bounded fields,
/// so rendering always fits.
pub open spec fn date_valid(d: AoDate) -> bool {
    &&& d.year <= 9999
    &&& 1 <= d.month <= 12
    &&& 1 <= d.day <= days_in_month(d.year as int, d.month as int)
}

/// The month number of an abbreviated English month name, or 0.
pub open spec fn month_num(s: Seq<char>) -> int {
    if s == "Jan"@ {
        1
    } else if s == "Feb"@ {
        2
    } else if s == "Mar"@ {
        3
    } else if s == "Apr"@ {
        4
    } else if s == "May"@ {
        5
    } else if s == "Jun"@ {
        6
    } else if s == "Jul"@ {
        7
    } else if s == "Aug"@ {
        8
    } else if s == "Sep"@ {
        9
    } else if s == "Oct"@ {
        10
    } else if s == "Nov"@ {
        11
    } else if s == "Dec"@ {
        12
    } else {
        0
    }
}

/// The date a `"<day> <month-name> <year>"` text denotes, or the sentinel.
pub open spec fn date_of_text(s: Seq<char>) -> AoDate {
    let p1 = find_eq(s, 0, ' ');
    if p1 == s.len() {
        sentinel_date()
    } else {
        let p2 = find_eq(s, p1 + 1, ' ');
        if p2 == s.len() {
            sentinel_date()
        } else {
            let day_s = s.take(p1);
            let mon_s = s.subrange(p1 + 1, p2);
            let yr_s = s.subrange(p2 + 1, s.len() as int);
            if is_digits(day_s) && 1 <= day_s.len() <= 2 && month_num(mon_s) >= 1 && is_digits(
                yr_s,
            ) && yr_s.len() == 4 && 1 <= dec_val(day_s) <= days_in_month(
                dec_val(yr_s),
                month_num(mon_s),
            ) {
                AoDate {
                    year: dec_val(yr_s) as u32,
                    month: month_num(mon_s) as u32,
                    day: dec_val(day_s) as u32,
                }
            } else {
                sentinel_date()
            }
        }
    }
}

/// Small powers of ten, spelled out for the parser's bounds.
pub proof fn lemma_pow10_small()
    ensures
        pow10(0) == 1,
        pow10(1) == 10,
        pow10(2) == 100,
        pow10(3) == 1000,
        pow10(4) == 10000,
{
    assert(pow10(0) == 1);
    assert(pow10(1) == 10 * pow10(0));
    assert(pow10(2) == 10 * pow10(1));
    assert(pow10(3) == 10 * pow10(2));
    assert(pow10(4) == 10 * pow10(3));
}

/// The sentinel is a valid date, and so is everything `date_of_text` yields.
pub proof fn lemma_date_of_text_valid(s: Seq<char>)
    ensures
        date_valid(date_of_text(s)),
{
    let p1 = find_eq(s, 0, ' ');
    if p1 != s.len() {
        let p2 = find_eq(s, p1 + 1, ' ');
        if p2 != s.len() {
            let yr_s = s.subrange(p2 + 1, s.len() as int);
            if is_digits(yr_s) && yr_s.len() == 4 {
                lemma_dec_val_nonneg(yr_s);
                lemma_dec_val_upper(yr_s);
                lemma_pow10_small();
            }
        }
    }
}

/// Matches the Gregorian month lengths; the leap rule decides February.
fn days_in_month_exec(year: u32, month: u32) -> (r: u32)
    requires
        1 <= month <= 12,
    ensures
        r == days_in_month(year as int, month as int),
{
    if month == 2 {
        if year % 4 == 0 && (year % 100 != 0 || year % 400 == 0) {
            29
        } else {
            28
        }
    } else if month == 4 || month == 6 || month == 9 || month == 11 {
        30
    } else {
        31
    }
}

impl AoDate {
    /// The epoch sentinel value.
    pub fn sentinel() -> (d: AoDate)
        ensures
            d == sentinel_date(),
    {
        AoDate { year: 1970, month: 1, day: 1 }
    }
}

/// Matches an abbreviated English month name.
fn month_num_exec(s: &str) -> (m: u32)
    ensures
        m == month_num(s@),
{
    if str_eq(s, "Jan") {
        1
    } else if str_eq(s, "Feb") {
        2
    } else if str_eq(s, "Mar") {
        3
    } else if str_eq(s, "Apr") {
        4
    } else if str_eq(s, "May") {
        5
    } else if str_eq(s, "Jun") {
        6
    } else if str_eq(s, "Jul") {
        7
    } else if str_eq(s, "Aug") {
        8
    } else if str_eq(s, "Sep") {
        9
    } else if str_eq(s, "Oct") {
        10
    } else if str_eq(s, "Nov") {
        11
    } else if str_eq(s, "Dec") {
        12
    } else {
        0
    }
}

/// Parses an upstream-rendered date; the sentinel on any unparsable shape.
pub fn ao3_dt_parse(s: &str) -> (d: AoDate)
    ensures
        d == date_of_text(s@),
        date_valid(d),
{
    proof {
        lemma_date_of_text_valid(s@);
    }
    let n = s.unicode_len();
    let p1 = scan_eq(s, 0, ' ');
    if p1 == n {
        return AoDate::sentinel();
    }
    let p2 = scan_eq(s, p1 + 1, ' ');
    if p2 == n {
        return AoDate::sentinel();
    }
    let day_str = s.substring_char(0, p1);
    let mon_str = s.substring_char(p1 + 1, p2);
    let yr_str = s.substring_char(p2 + 1, n);
    proof {
        assert(day_str@ =~= s@.take(p1 as int));
        assert(mon_str@ =~= s@.subrange(p1 + 1, p2 as int));
        assert(yr_str@ =~= s@.subrange(p2 + 1, s@.len() as int));
    }
    if p1 < 1 || p1 > 2 {
        return AoDate::sentinel();
    }
    let day = match parse_u32_digits(day_str) {
        Some(v) => v,
        None => {
            proof {
                // a one- or two-digit string always fits, so a parse failure
                // means the text was not all digits
                if is_digits(day_str@) {
                    lemma_dec_val_nonneg(day_str@);
                    lemma_dec_val_upper(day_str@);
                    lemma_pow10_small();
                }
            }
            return AoDate::sentinel();
        },
    };
    let month = month_num_exec(mon_str);
    if month == 0 {
        return AoDate::sentinel();
    }
    if p2 + 1 > n || n - (p2 + 1) != 4 {
        return AoDate::sentinel();
    }
    let year = match parse_u32_digits(yr_str) {
        Some(v) => v,
        None => {
            proof {
                if is_digits(yr_str@) {
                    lemma_dec_val_nonneg(yr_str@);
                    lemma_dec_val_upper(yr_str@);
                    lemma_pow10_small();
                }
            }
            return AoDate::sentinel();
        },
    };
    proof {
        lemma_pow10_small();
        lemma_dec_val_upper(yr_str@);
        lemma_dec_val_nonneg(yr_str@);
        lemma_dec_val_nonneg(day_str@);
    }
    if day < 1 || day > days_in_month_exec(year, month) {
        return AoDate::sentinel();
    }
    AoDate { year, month, day }
}

/// A number rendered as exactly two digits, zero padded.
pub open spec fn pad2(n: int) -> Seq<char> {
    seq![digit_char(n / 10 % 10), digit_char(n % 10)]
}

/// A number rendered as exactly four digits, zero padded.
pub open spec fn pad4(n: int) -> Seq<char> {
    seq![
        digit_char(n / 1000 % 10),
        digit_char(n / 100 % 10),
        digit_char(n / 10 % 10),
        digit_char(n % 10),
    ]
}

/// The RFC3339 rendering of a date at midnight, zero offset.
pub open spec fn rfc3339_of(d: AoDate) -> Seq<char> {
    pad4(d.year as int) + "-"@ + pad2(d.month as int) + "-"@ + pad2(d.day as int)
        + "T00:00:00+00:00"@
}

impl AoDate {
    /// Renders the date in RFC3339 form at a fixed zero offset.
    pub fn to_rfc3339(&self) -> (r: String)
        ensures
            r@ == rfc3339_of(*self),
    {
        let mut out = String::new();
        out.append(digit_str((self.year / 1000 % 10) as u64));
        out.append(digit_str((self.year / 100 % 10) as u64));
        out.append(digit_str((self.year / 10 % 10) as u64));
        out.append(digit_str((self.year % 10) as u64));
        assert(out@ =~= pad4(self.year as int));
        out.append("-");
        out.append(digit_str((self.month / 10 % 10) as u64));
        out.append(digit_str((self.month % 10) as u64));
        assert(out@ =~= pad4(self.year as int) + "-"@ + pad2(self.month as int));
        out.append("-");
        out.append(digit_str((self.day / 10 % 10) as u64));
        out.append(digit_str((self.day % 10) as u64));
        out.append("T00:00:00+00:00");
        assert(out@ =~= rfc3339_of(*self));
        out
    }
}

/// Relies on `chrono::Utc::now` and `DateTime::to_rfc3339` for the feed
/// generation timestamp. The result depends on the clock, so nothing is
/// promised of it.
#[verifier::external_body]
pub(crate) fn now_rfc3339() -> String {
    chrono::Utc::now().to_rfc3339()
}

} // verus!
