//! The Gregorian calendar and the moments it names.
//!
//! A moment is a whole number of seconds since the start of 1970 in UTC, as it
//! is in Unix time. The `time` crate does the conversions.

use vstd::prelude::*;

verus! {

/// First moment of the earliest year the `time` crate knows, -9999.
pub const EARLIEST_MOMENT: i64 = -377_705_116_800;

/// Last second of the latest year it knows, 9999.
pub const LATEST_MOMENT: i64 = 253_402_300_799;

/// A civil date and time of day.
pub struct Civil {
    pub year: int,
    pub month: int,
    pub day: int,
    pub hour: int,
    pub minute: int,
    pub second: int,
}

/// Every fourth year is a leap year, except centuries not divisible by 400.
pub open spec fn is_leap(year: int) -> bool {
    year % 4 == 0 && (year % 100 != 0 || year % 400 == 0)
}

/// Days in a month.
pub open spec fn month_length(year: int, month: int) -> int {
    if month == 2 {
        if is_leap(year) { 29 } else { 28 }
    } else if month == 4 || month == 6 || month == 9 || month == 11 {
        30
    } else {
        31
    }
}

/// Days from the start of year 1 to the start of `year`.
pub open spec fn days_before_year(year: int) -> int {
    365 * (year - 1) + (year - 1) / 4 - (year - 1) / 100 + (year - 1) / 400
}

/// Days from the start of the year to the start of a month.
pub open spec fn days_before_month(year: int, month: int) -> int
    decreases month,
{
    if month <= 1 {
        0
    } else {
        days_before_month(year, month - 1) + month_length(year, month - 1)
    }
}

impl Civil {
    /// A reading from machine numbers.
    pub open spec fn of(year: i32, month: u8, day: u8, hour: u8, minute: u8, second: u8) -> Civil {
        Civil {
            year: year as int,
            month: month as int,
            day: day as int,
            hour: hour as int,
            minute: minute as int,
            second: second as int,
        }
    }

    /// A day that exists, in a year the calendar covers, and a time within it.
    pub open spec fn valid(self) -> bool {
        &&& -9999 <= self.year <= 9999
        &&& 1 <= self.month <= 12
        &&& 1 <= self.day <= month_length(self.year, self.month)
        &&& 0 <= self.hour < 24
        &&& 0 <= self.minute < 60
        &&& 0 <= self.second < 60
    }

    /// Days since the start of 1970.
    pub open spec fn day_number(self) -> int {
        days_before_year(self.year) - days_before_year(1970) + days_before_month(
            self.year,
            self.month,
        ) + self.day - 1
    }

    /// Seconds since midnight.
    pub open spec fn second_of_day(self) -> int {
        self.hour * 3600 + self.minute * 60 + self.second
    }

    /// Seconds since the start of 1970.
    pub open spec fn moment(self) -> int {
        self.day_number() * 86400 + self.second_of_day()
    }
}

/// The calendar covers the moment.
pub open spec fn covered(moment: int) -> bool {
    EARLIEST_MOMENT <= moment <= LATEST_MOMENT
}

/// The civil reading of a moment.
pub open spec fn civil_at(moment: int) -> Civil {
    choose|civil: Civil| civil.valid() && civil.moment() == moment
}

/// Whether `time::Month::try_from` takes the number for a month: it does for
/// 1 to 12 and for no other.
#[verifier::external_body]
pub(crate) fn is_month(number: u8) -> (known: bool)
    ensures
        known == (1 <= number <= 12),
{
    time::Month::try_from(number).is_ok()
}

/// `time::util::days_in_month`: the number of days in a month of the proleptic
/// Gregorian calendar.
#[verifier::external_body]
pub(crate) fn length_of_month(month: u8, year: i32) -> (days: u8)
    requires
        1 <= month <= 12,
    ensures
        days == month_length(year as int, month as int),
{
    time::util::days_in_month(time::Month::try_from(month).unwrap(), year)
}

/// `unix_timestamp` of the date that `time::Date::from_calendar_date` and the
/// time of day that `time::Time::from_hms` build, read as UTC.
///
/// They refuse months, days and times that do not exist and years beyond
/// -9999 to 9999; every other reading has its moment.
#[verifier::external_body]
pub(crate) fn moment_of(
    year: i32,
    month: u8,
    day: u8,
    hour: u8,
    minute: u8,
    second: u8,
) -> (result: Option<i64>)
    ensures
        result is Some <==> Civil::of(year, month, day, hour, minute, second).valid(),
        result matches Some(moment) ==> moment == Civil::of(
            year,
            month,
            day,
            hour,
            minute,
            second,
        ).moment(),
{
    let month = time::Month::try_from(month).ok()?;
    let date = time::Date::from_calendar_date(year, month, day).ok()?;
    let clock = time::Time::from_hms(hour, minute, second).ok()?;
    Some(time::PrimitiveDateTime::new(date, clock).assume_utc().unix_timestamp())
}

/// `time::OffsetDateTime::from_unix_timestamp`: the civil reading of a moment
/// in UTC as year, month, day, hour, minute and second, or nothing where the
/// calendar does not reach.
#[verifier::external_body]
pub(crate) fn reading_of(moment: i64) -> (reading: Option<(i32, u8, u8, u8, u8, u8)>)
    ensures
        reading is Some <==> covered(moment as int),
        reading matches Some(r) ==> Civil::of(r.0, r.1, r.2, r.3, r.4, r.5).valid(),
        reading matches Some(r) ==> Civil::of(r.0, r.1, r.2, r.3, r.4, r.5).moment() == moment,
{
    let at = time::OffsetDateTime::from_unix_timestamp(moment).ok()?;
    Some((at.year(), at.month().into(), at.day(), at.hour(), at.minute(), at.second()))
}

/// `time::PrimitiveDateTime::checked_add` of a number of minutes: the moment
/// that much later, or nothing where the calendar does not reach.
#[verifier::external_body]
pub(crate) fn minutes_later(moment: i64, minutes: i16) -> (later: Option<i64>)
    requires
        covered(moment as int),
    ensures
        later == if covered(moment + 60 * minutes) {
            Some((moment + 60 * minutes) as i64)
        } else {
            None
        },
{
    let at = time::OffsetDateTime::from_unix_timestamp(moment).ok()?;
    let at = time::PrimitiveDateTime::new(at.date(), at.time());
    let later = at.checked_add(time::Duration::minutes(i64::from(minutes)))?;
    Some(later.assume_utc().unix_timestamp())
}

/// Length of a month in the clock editor.
pub open spec fn days_offered(year: i32, month: i32) -> int {
    if 1 <= month <= 12 {
        month_length(year as int, month as int)
    } else {
        31
    }
}

/// Length of a month in the clock editor, falling back to 31 while the month
/// field is mid-edit and not yet a valid month number.
pub fn days_in_month(year: i32, month: i32) -> (days: i32)
    ensures
        days == if 1 <= month <= 12 {
            month_length(year as int, month as int)
        } else {
            31
        },
        days == days_offered(year, month),
{
    if month < 0 || month > u8::MAX as i32 || !is_month(month as u8) {
        return 31;
    }
    length_of_month(month as u8, year) as i32
}

/// A year is as long as its months together, and the next one starts after it.
proof fn lemma_year_length(year: int)
    ensures
        days_before_year(year + 1) == days_before_year(year) + days_before_month(year, 13),
        days_before_month(year, 13) == if is_leap(year) { 366int } else { 365 },
{
    reveal_with_fuel(days_before_month, 13);
}

proof fn lemma_years_ascend(earlier: int, later: int)
    requires
        earlier <= later,
    ensures
        days_before_year(earlier) <= days_before_year(later),
    decreases later - earlier,
{
    if earlier < later {
        lemma_years_ascend(earlier, later - 1);
        lemma_year_length(later - 1);
    }
}

proof fn lemma_months_ascend(year: int, earlier: int, later: int)
    requires
        1 <= earlier <= later,
    ensures
        0 <= days_before_month(year, earlier) <= days_before_month(year, later),
    decreases later,
{
    if earlier < later {
        lemma_months_ascend(year, earlier, later - 1);
    } else if 1 < earlier {
        lemma_months_ascend(year, earlier - 1, later - 1);
    }
}

/// A valid day stays within its year.
proof fn lemma_day_within_year(civil: Civil)
    requires
        civil.valid(),
    ensures
        days_before_year(civil.year) <= civil.day_number() + days_before_year(1970)
            < days_before_year(civil.year + 1),
{
    lemma_months_ascend(civil.year, 1, civil.month);
    lemma_months_ascend(civil.year, civil.month + 1, 13);
    lemma_year_length(civil.year);
}

/// A moment has one civil reading: two valid readings of it are the same.
pub proof fn law_one_reading_per_moment(a: Civil, b: Civil)
    requires
        a.valid(),
        b.valid(),
        a.moment() == b.moment(),
    ensures
        a == b,
{
    assert(0 <= a.second_of_day() < 86400);
    assert(0 <= b.second_of_day() < 86400);
    assert(a.day_number() == b.day_number());
    assert(a.second_of_day() == b.second_of_day());
    lemma_day_within_year(a);
    lemma_day_within_year(b);
    if a.year < b.year {
        lemma_years_ascend(a.year + 1, b.year);
    } else if b.year < a.year {
        lemma_years_ascend(b.year + 1, a.year);
    }
    if a.month < b.month {
        lemma_months_ascend(a.year, a.month + 1, b.month);
    } else if b.month < a.month {
        lemma_months_ascend(a.year, b.month + 1, a.month);
    }
}

/// Every valid reading names a covered moment, and reading that moment gives
/// it back.
pub proof fn law_readings_round_trip(civil: Civil)
    requires
        civil.valid(),
    ensures
        covered(civil.moment()),
        civil_at(civil.moment()) == civil,
{
    law_one_reading_per_moment(civil_at(civil.moment()), civil);
    lemma_day_within_year(civil);
    lemma_years_ascend(-9999, civil.year);
    lemma_years_ascend(civil.year + 1, 10000);
}

/// The year in which a day falls, counting days from the start of year 1.
proof fn lemma_year_of_day(day: int, low: int, high: int) -> (year: int)
    requires
        days_before_year(low) <= day < days_before_year(high),
        low <= high,
    ensures
        low <= year < high,
        days_before_year(year) <= day < days_before_year(year + 1),
    decreases high - low,
{
    if days_before_year(low + 1) <= day {
        lemma_year_of_day(day, low + 1, high)
    } else {
        low
    }
}

/// The month in which a day of the year falls.
proof fn lemma_month_of_day(year: int, day: int, low: int) -> (month: int)
    requires
        1 <= low <= 12,
        days_before_month(year, low) <= day < days_before_month(year, 13),
    ensures
        low <= month <= 12,
        days_before_month(year, month) <= day < days_before_month(year, month + 1),
    decreases 13 - low,
{
    if low < 12 && days_before_month(year, low + 1) <= day {
        lemma_month_of_day(year, day, low + 1)
    } else {
        low
    }
}

/// Every covered moment has a civil reading, and it names that moment.
pub proof fn law_every_moment_has_a_reading(moment: int)
    requires
        covered(moment),
    ensures
        civil_at(moment).valid(),
        civil_at(moment).moment() == moment,
{
    let day = moment / 86400 + days_before_year(1970);
    let second = moment % 86400;
    let year = lemma_year_of_day(day, -9999, 10000);
    lemma_year_length(year);
    let month = lemma_month_of_day(year, day - days_before_year(year), 1);
    let civil = Civil {
        year,
        month,
        day: day - days_before_year(year) - days_before_month(year, month) + 1,
        hour: second / 3600,
        minute: second % 3600 / 60,
        second: second % 60,
    };
    assert(civil.valid());
    assert(civil.moment() == moment);
}

/// A date in one of some years lies between their first and last moment.
pub(crate) proof fn lemma_moment_within_years(civil: Civil, first: int, last: int)
    requires
        civil.valid(),
    ensures
        first <= civil.year <= last ==> (days_before_year(first) - days_before_year(1970)) * 86400
            <= civil.moment() < (days_before_year(last + 1) - days_before_year(1970)) * 86400,
{
    if first <= civil.year <= last {
        lemma_day_within_year(civil);
        lemma_years_ascend(first, civil.year);
        lemma_years_ascend(civil.year + 1, last + 1);
    }
}

/// A date whose moment lies between the first and the last one of some years is
/// in one of them.
pub(crate) proof fn lemma_moment_needs_year(civil: Civil, first: int, last: int)
    requires
        civil.valid(),
        first <= last,
    ensures
        (days_before_year(first) - days_before_year(1970)) * 86400 <= civil.moment() < (
        days_before_year(last + 1) - days_before_year(1970)) * 86400 ==> first <= civil.year <= last,
{
    lemma_day_within_year(civil);
    if civil.year < first {
        lemma_years_ascend(civil.year + 1, first);
    } else if civil.year > last {
        lemma_years_ascend(last + 1, civil.year);
    }
}

/// The days are numbered without gaps: the day after another one, in the same
/// month, in the next one or in the next year, has the next number, and the
/// first of January 1970 has the number zero.
pub proof fn law_days_follow_each_other(civil: Civil)
    requires
        civil.valid(),
    ensures
        ({
            let next = if civil.day < month_length(civil.year, civil.month) {
                Civil { day: civil.day + 1, ..civil }
            } else if civil.month < 12 {
                Civil { month: civil.month + 1, day: 1, ..civil }
            } else {
                Civil { year: civil.year + 1, month: 1, day: 1, ..civil }
            };
            &&& next.day_number() == civil.day_number() + 1
            &&& next.moment() == civil.moment() + 86400
        }),
        (Civil { year: 1970, month: 1, day: 1, hour: 0, minute: 0, second: 0 }).moment() == 0,
{
    lemma_year_length(civil.year);
    assert(days_before_month(civil.year, civil.month + 1) == days_before_month(
        civil.year,
        civil.month,
    ) + month_length(civil.year, civil.month));
}

/// The editor offers exactly the days that a month has, and thirty-one where
/// there is no such month.
pub proof fn law_offered_days_exist(year: i32, month: i32, day: int)
    requires
        -9999 <= year <= 9999,
    ensures
        1 <= month <= 12 ==> (1 <= day <= days_offered(year, month) <==> (Civil {
            year: year as int,
            month: month as int,
            day,
            hour: 0,
            minute: 0,
            second: 0,
        }).valid()),
        !(1 <= month <= 12) ==> days_offered(year, month) == 31,
{
}

} // verus!
