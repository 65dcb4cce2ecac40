//! Calendar dates for the rate fetcher's day stepping.
//!
//! A date is held as plain year, month and day numbers in the
//! proleptic Gregorian calendar; stepping one day back and the ISO
//! `YYYY-MM-DD` text are specified exactly. Only reading the clock
//! goes through the time library.

use vstd::prelude::*;
use crate::num::fixed_seq;
use crate::num::lemma_fixed_seq_len;
use crate::num::push_fixed;

verus! {

/// A calendar date, proleptic Gregorian.
#[derive(Clone, Copy, Debug, PartialEq, Eq, Structural)]
pub struct Date {
    pub year: u64,
    pub month: u64,
    pub day: u64,
}

pub open spec fn is_leap_year(y: nat) -> bool {
    y % 4 == 0 && (y % 100 != 0 || y % 400 == 0)
}

pub open spec fn days_in_month(y: nat, m: nat) -> nat {
    if m == 2 {
        if is_leap_year(y) {
            29
        } else {
            28
        }
    } else if m == 4 || m == 6 || m == 9 || m == 11 {
        30
    } else {
        31
    }
}

impl Date {
    /// A real calendar date within the four-digit year range.
    pub open spec fn wf(self) -> bool {
        &&& 1 <= self.year <= 9999
        &&& 1 <= self.month <= 12
        &&& 1 <= self.day <= days_in_month(self.year as nat, self.month as nat)
    }

    /// The first supported day, before which no step back exists.
    pub open spec fn is_min(self) -> bool {
        self.year == 1 && self.month == 1 && self.day == 1
    }
}

/// The previous calendar day.
pub open spec fn prev_date_spec(d: Date) -> Date {
    if d.day > 1 {
        Date { year: d.year, month: d.month, day: (d.day - 1) as u64 }
    } else if d.month > 1 {
        Date {
            year: d.year,
            month: (d.month - 1) as u64,
            day: days_in_month(d.year as nat, (d.month - 1) as nat) as u64,
        }
    } else {
        Date { year: (d.year - 1) as u64, month: 12, day: 31 }
    }
}

fn is_leap(y: u64) -> (b: bool)
    ensures
        b == is_leap_year(y as nat),
{
    y % 4 == 0 && (y % 100 != 0 || y % 400 == 0)
}

fn month_days(y: u64, m: u64) -> (r: u64)
    ensures
        r as nat == days_in_month(y as nat, m as nat),
{
    if m == 2 {
        if is_leap(y) {
            29
        } else {
            28
        }
    } else if m == 4 || m == 6 || m == 9 || m == 11 {
        30
    } else {
        31
    }
}

/// Steps one day back. The result is again a real date, never a later
/// year, and exactly `prev_date_spec`.
pub fn previous_day(d: &Date) -> (r: Date)
    requires
        d.wf(),
        !d.is_min(),
    ensures
        r == prev_date_spec(*d),
        r.wf(),
        r.year <= d.year,
{
    if d.day > 1 {
        Date { year: d.year, month: d.month, day: d.day - 1 }
    } else if d.month > 1 {
        Date { year: d.year, month: d.month - 1, day: month_days(d.year, d.month - 1) }
    } else {
        Date { year: d.year - 1, month: 12, day: 31 }
    }
}

/// Whether a date is a real calendar date in the supported range.
pub fn date_wf_check(d: &Date) -> (b: bool)
    ensures
        b == d.wf(),
{
    1 <= d.year && d.year <= 9999 && 1 <= d.month && d.month <= 12 && 1 <= d.day && d.day
        <= month_days(d.year, d.month)
}

/// ISO text of a date: `YYYY-MM-DD`, zero padded.
pub open spec fn iso_spec(d: Date) -> Seq<char> {
    fixed_seq(d.year as nat, 4) + seq!['-'] + fixed_seq(d.month as nat, 2) + seq!['-'] + fixed_seq(
        d.day as nat,
        2,
    )
}

/// The ISO `YYYY-MM-DD` text of a date.
pub fn date_iso(d: &Date) -> (r: String)
    ensures
        r@ == iso_spec(*d),
{
    let mut out = String::new();
    push_fixed(d.year as u128, 4, &mut out);
    let dash = dash_str();
    out.append(dash);
    push_fixed(d.month as u128, 2, &mut out);
    out.append(dash);
    push_fixed(d.day as u128, 2, &mut out);
    proof {
        assert(out@ =~= iso_spec(*d));
    }
    out
}

fn dash_str() -> (r: &'static str)
    ensures
        r@ == seq!['-'],
{
    proof {
        reveal_strlit("-");
        assert("-"@ =~= seq!['-']);
    }
    "-"
}

/// Relies on std's `SystemTime::now` / `duration_since` for the
/// seconds since the Unix epoch, and on chrono's panic-free
/// `DateTime::from_timestamp` with `date_naive` and the `Datelike`
/// accessors `year`, `month`, `day` to turn them into a calendar date.
/// chrono documents `month` as 1 to 12 and `day` as 1 to 31; the year
/// is widened and stated no further, as the clock's value depends on
/// the machine. A clock before the epoch or outside chrono's range
/// gives `None`; no path panics.
#[verifier::external_body]
fn now_utc_ymd() -> (r: Option<(i64, u64, u64)>)
    ensures
        r matches Some(t) ==> 1 <= t.1 <= 12 && 1 <= t.2 <= 31,
{
    let dur = std::time::SystemTime::now().duration_since(std::time::UNIX_EPOCH).ok()?;
    let secs = i64::try_from(dur.as_secs()).ok()?;
    let d = chrono::DateTime::<chrono::Utc>::from_timestamp(secs, 0)?.date_naive();
    Some((
        chrono::Datelike::year(&d) as i64,
        chrono::Datelike::month(&d) as u64,
        chrono::Datelike::day(&d) as u64,
    ))
}

/// Builds a date from clock components: a year outside the four-digit
/// range, a month outside the calendar, or a day outside the month is
/// refused; otherwise the date is exactly the given components.
pub fn date_from_ymd(y: i64, m: u64, d: u64) -> (r: Option<Date>)
    ensures
        r is Some <==> (1 <= y <= 9999 && 1 <= m <= 12 && 1 <= d <= days_in_month(
            y as nat,
            m as nat,
        )),
        r matches Some(dt) ==> dt == (Date { year: y as u64, month: m, day: d }) && dt.wf(),
{
    if y < 1 || y > 9999 || m < 1 || m > 12 {
        return None;
    }
    let year = y as u64;
    if d < 1 || d > month_days(year, m) {
        return None;
    }
    Some(Date { year, month: m, day: d })
}

/// Today's UTC date from the system clock; `None` when the clock is
/// unreadable or reports a date outside the supported range.
pub fn today_utc() -> (r: Option<Date>)
    ensures
        r matches Some(d) ==> d.wf(),
{
    match now_utc_ymd() {
        None => None,
        Some((y, m, d)) => date_from_ymd(y, m, d),
    }
}

} // verus!
