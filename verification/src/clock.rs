//! Time: instants as whole seconds since the Unix epoch, the wall clock, and
//! calendar time in the machine's time zone written as
//! `YYYY-MM-DD HH:MM:SS`.

use crate::text::{
    decimal, digit_char, digit_str, is_digit, is_plain, lacks, lemma_decimal_digits, push_decimal,
    push_two_digits, two_digits,
};
use chrono::{Datelike, Local, TimeZone, Timelike, Utc};
use vstd::prelude::*;
use vstd::string::*;

verus! {

/// By how many eras of 400 years a year is moved up before it is divided,
/// so that no year of the calendar is divided below zero.
pub const ERA_SHIFT: i64 = 5_400_000;

/// Seconds in a day.
pub const SECONDS_PER_DAY: i64 = 86_400;

/// The most days that a clock is ever set back from the wall clock.
pub const MAX_DAYS_BACK: i64 = 7;

/// The most seconds that a clock advances in one step.
pub const MAX_STEP_SECONDS: i64 = 360;

/// The first instant that the calendar is sure to hold: the Unix epoch.
pub const CALENDAR_START: i64 = 0;

/// The last instant that the calendar is sure to hold: the last second of
/// the year 9999 in UTC.
pub const CALENDAR_END: i64 = 253_402_300_799;

/// True when `secs` lies from `CALENDAR_START` to `CALENDAR_END`, where
/// the calendar holds every instant.
pub open spec fn in_calendar(secs: i64) -> bool {
    CALENDAR_START <= secs <= CALENDAR_END
}

/// True when clock arithmetic around `now` stays within `i64`: `now` can be
/// set back by `MAX_DAYS_BACK` days, and an instant before `now` can advance
/// by `MAX_STEP_SECONDS`.
pub open spec fn usable_now(now: i64) -> bool {
    i64::MIN + MAX_DAYS_BACK * SECONDS_PER_DAY <= now <= i64::MAX - MAX_STEP_SECONDS
}

/// Whether clock arithmetic around `now` stays within `i64`.
pub fn is_usable_now(now: i64) -> (usable: bool)
    ensures
        usable == usable_now(now),
{
    i64::MIN + MAX_DAYS_BACK * SECONDS_PER_DAY <= now && now <= i64::MAX - MAX_STEP_SECONDS
}

/// The instant `days` days before `now`.
pub fn days_before(now: i64, days: i64) -> (instant: i64)
    requires
        usable_now(now),
        0 <= days <= MAX_DAYS_BACK,
    ensures
        instant == now - days * SECONDS_PER_DAY,
{
    now - days * SECONDS_PER_DAY
}

/// How many days lie from the first of January 1970 to the day `day` of the
/// month `month` of the year `year`, by the count of the Gregorian calendar
/// carried on without end in both directions. The count runs over years
/// that begin in March, in eras of 400 years.
pub open spec fn civil_days(year: int, month: int, day: int) -> int {
    let y = if month <= 2 {
        year - 1
    } else {
        year
    };
    let era = y / 400;
    let year_of_era = y - era * 400;
    let month_from_march = (month + 9) % 12;
    let day_of_year = (153 * month_from_march + 2) / 5 + day - 1;
    let day_of_era = year_of_era * 365 + year_of_era / 4 - year_of_era / 100 + day_of_year;
    era * 146_097 + day_of_era - 719_468
}

/// A date and a time of day on the calendar.
#[derive(Clone, Copy, Debug, PartialEq, Eq, Structural)]
pub struct CivilTime {
    pub year: i32,
    pub month: u32,
    pub day: u32,
    pub hour: u32,
    pub minute: u32,
    pub second: u32,
}

/// The four-digit numeral of `n`, with leading zeros.
pub open spec fn four_digits(n: nat) -> Seq<char>
    recommends
        n < 10_000,
{
    seq![
        digit_char((n / 1000) as int),
        digit_char((n / 100 % 10) as int),
        digit_char((n / 10 % 10) as int),
        digit_char((n % 10) as int),
    ]
}

/// A year as the calendar writes it: four digits from 0 to 9999; beyond
/// that a sign, then at least four digits.
pub open spec fn year_text(year: int) -> Seq<char> {
    if 0 <= year <= 9999 {
        four_digits(year as nat)
    } else if year > 9999 {
        seq!['+'] + decimal(year as nat)
    } else if year >= -9999 {
        seq!['-'] + four_digits((-year) as nat)
    } else {
        seq!['-'] + decimal((-year) as nat)
    }
}

impl CivilTime {
    /// The month, day, hour, minute and second lie in their calendar ranges.
    pub open spec fn wf(self) -> bool {
        &&& 1 <= self.month <= 12
        &&& 1 <= self.day <= 31
        &&& self.hour <= 23
        &&& self.minute <= 59
        &&& self.second <= 59
    }

    /// How many seconds lie from the Unix epoch to this time, read as a time
    /// in UTC.
    pub open spec fn seconds(self) -> int {
        civil_days(self.year as int, self.month as int, self.day as int) * SECONDS_PER_DAY
            + self.hour * 3600 + self.minute * 60 + self.second
    }

    /// True when this is the time that a clock in some time zone shows at
    /// the instant `secs`: read as a time in UTC it lies less than a day
    /// from the instant.
    pub open spec fn shows(self, secs: int) -> bool {
        self.wf() && -SECONDS_PER_DAY < self.seconds() - secs < SECONDS_PER_DAY
    }

    /// How many seconds lie from the Unix epoch to this time, read as a time
    /// in UTC.
    pub fn epoch_seconds(&self) -> (secs: i64)
        requires
            self.wf(),
        ensures
            secs == self.seconds(),
    {
        let month: i64 = self.month as i64;
        let y: i64 = if month <= 2 {
            self.year as i64 - 1
        } else {
            self.year as i64
        };
        let shifted: i64 = y + 400 * ERA_SHIFT;
        let era: i64 = shifted / 400 - ERA_SHIFT;
        let year_of_era: i64 = shifted % 400;
        proof {
            vstd::arithmetic::div_mod::lemma_fundamental_div_mod(shifted as int, 400);
            vstd::arithmetic::div_mod::lemma_fundamental_div_mod_converse(
                y as int,
                400,
                era as int,
                year_of_era as int,
            );
        }
        let month_from_march: i64 = (month + 9) % 12;
        let day_of_year: i64 = (153 * month_from_march + 2) / 5 + self.day as i64 - 1;
        let day_of_era: i64 = year_of_era * 365 + year_of_era / 4 - year_of_era / 100
            + day_of_year;
        let days: i64 = era * 146_097 + day_of_era - 719_468;
        days * SECONDS_PER_DAY + self.hour as i64 * 3600 + self.minute as i64 * 60
            + self.second as i64
    }

    /// The time written as `YYYY-MM-DD HH:MM:SS`.
    pub open spec fn text(self) -> Seq<char> {
        year_text(self.year as int) + seq!['-'] + two_digits(self.month as nat) + seq!['-']
            + two_digits(self.day as nat) + seq![' '] + two_digits(self.hour as nat) + seq![':']
            + two_digits(self.minute as nat) + seq![':'] + two_digits(self.second as nat)
    }

    /// The time written as `YYYY-MM-DD HH:MM:SS`.
    pub fn format(&self) -> (r: String)
        requires
            self.wf(),
        ensures
            r@ == self.text(),
    {
        proof {
            reveal_strlit("-");
            reveal_strlit("+");
            reveal_strlit(" ");
            reveal_strlit(":");
        }
        let mut out = String::new();
        let year: i64 = self.year as i64;
        if 0 <= year && year <= 9999 {
            push_four_digits(&mut out, year as u64);
        } else if year > 9999 {
            out.append("+");
            push_decimal(&mut out, year as u64);
        } else if year >= -9999 {
            out.append("-");
            push_four_digits(&mut out, (-year) as u64);
        } else {
            out.append("-");
            push_decimal(&mut out, (-year) as u64);
        }
        assert(out@ =~= year_text(self.year as int));
        out.append("-");
        push_two_digits(&mut out, self.month as u64);
        out.append("-");
        push_two_digits(&mut out, self.day as u64);
        out.append(" ");
        push_two_digits(&mut out, self.hour as u64);
        out.append(":");
        push_two_digits(&mut out, self.minute as u64);
        out.append(":");
        push_two_digits(&mut out, self.second as u64);
        assert(out@ =~= self.text());
        out
    }

    /// The written time is plain text and holds no quote; from year 0 to
    /// year 9999 it has nineteen characters.
    pub proof fn lemma_text_plain(self)
        requires
            self.wf(),
        ensures
            is_plain(self.text()),
            lacks(self.text(), '\''),
            0 <= self.year <= 9999 ==> self.text().len() == 19,
    {
        reveal(is_plain);
        let y = self.year as int;
        if y > 9999 {
            lemma_decimal_digits(y as nat);
        } else if y < -9999 {
            lemma_decimal_digits((-y) as nat);
        }
        let year = year_text(y);
        assert forall|i: int| 0 <= i < year.len() implies is_digit(#[trigger] year[i]) || year[i]
            == '+' || year[i] == '-' by {
            if y > 9999 || y < -9999 {
                if i > 0 {
                    let digits = if y > 9999 {
                        decimal(y as nat)
                    } else {
                        decimal((-y) as nat)
                    };
                    assert(year[i] == digits[i - 1]);
                }
            }
        }
        assert forall|i: int| 0 <= i < self.text().len() implies ' ' <= #[trigger] self.text()[i]
            <= '~' && self.text()[i] != '\'' by {
            let n = year_text(y).len() as int;
            if i < n {
                assert(self.text()[i] == year_text(y)[i]);
            }
        }
    }
}

/// Appends the four-digit numeral of `n` to `out`.
pub fn push_four_digits(out: &mut String, n: u64)
    requires
        n < 10_000,
    ensures
        final(out)@ == old(out)@ + four_digits(n as nat),
{
    out.append(digit_str(n / 1000));
    out.append(digit_str(n / 100 % 10));
    out.append(digit_str(n / 10 % 10));
    out.append(digit_str(n % 10));
    assert(out@ =~= old(out)@ + four_digits(n as nat));
}

/// True when `t` is some calendar time written as `YYYY-MM-DD HH:MM:SS`.
pub open spec fn is_timestamp_text(t: Seq<char>) -> bool {
    exists|c: CivilTime| c.wf() && t == #[trigger] c.text()
}

/// True when `t` is the time that a clock in some time zone shows at the
/// instant `secs`, written as `YYYY-MM-DD HH:MM:SS`.
pub open spec fn is_timestamp_of(t: Seq<char>, secs: int) -> bool {
    exists|c: CivilTime| c.shows(secs) && t == #[trigger] c.text()
}

/// The written time of an instant is a written calendar time.
pub proof fn lemma_timestamp_of_is_text(t: Seq<char>, secs: int)
    requires
        is_timestamp_of(t, secs),
    ensures
        is_timestamp_text(t),
{
    let c = choose|c: CivilTime| c.shows(secs) && t == #[trigger] c.text();
    assert(c.wf() && t == c.text());
}

/// A written calendar time is plain.
pub proof fn lemma_timestamp_text_plain(t: Seq<char>)
    requires
        is_timestamp_text(t),
    ensures
        is_plain(t),
        lacks(t, '\''),
{
    let c = choose|c: CivilTime| c.wf() && t == #[trigger] c.text();
    c.lemma_text_plain();
}

/// The instant `secs` in the machine's time zone, written as
/// `YYYY-MM-DD HH:MM:SS`; `None` where the calendar cannot hold the instant,
/// which is never so from `CALENDAR_START` to `CALENDAR_END`. Which time
/// zone the machine is in is not known here; in any zone the written time,
/// read as a time in UTC, lies less than a day from the instant.
pub fn timestamp_text(secs: i64) -> (r: Option<String>)
    ensures
        r matches Some(t) ==> is_timestamp_of(t@, secs as int),
        in_calendar(secs) ==> r is Some,
{
    match local_civil_time(secs) {
        Some(c) => {
            let t = c.format();
            assert(c.shows(secs as int) && t@ == c.text());
            Some(t)
        },
        None => None,
    }
}

/// `Utc::now` and `DateTime::timestamp`: the system clock in whole seconds
/// since the Unix epoch. Nothing is claimed of the value. The call panics
/// where the system clock stands before the epoch.
#[verifier::external_body]
pub(crate) fn utc_now_seconds() -> (now: i64) {
    Utc::now().timestamp()
}

/// `TimeZone::timestamp_opt` on `Local`, then the calendar fields of the
/// result through `Datelike` and `Timelike`. The call gives no time only
/// for an instant outside the years that the calendar type can hold, which
/// reach far beyond the years 1970 to 9999; so an instant from
/// `CALENDAR_START` to `CALENDAR_END` always has a time. The fields of a
/// time that came back lie in the ranges that the two traits document:
/// month 1 to 12, day 1 to 31, hour 0 to 23, minute and second 0 to 59.
/// The time is that of the instant moved by the offset of the time zone,
/// which is less than a day either way; so the time that came back, read as
/// a time in UTC, lies less than a day from the instant.
#[verifier::external_body]
fn local_civil_time(secs: i64) -> (r: Option<CivilTime>)
    ensures
        r matches Some(t) ==> t.shows(secs as int),
        in_calendar(secs) ==> r is Some,
{
    match Local.timestamp_opt(secs, 0).single() {
        Some(t) => Some(
            CivilTime {
                year: t.year(),
                month: t.month(),
                day: t.day(),
                hour: t.hour(),
                minute: t.minute(),
                second: t.second(),
            },
        ),
        None => None,
    }
}

} // verus!
