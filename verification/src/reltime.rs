//! Moments as people say them: how long ago, or on which day.

use vstd::prelude::*;

use crate::numerals::{self, decimal_text};
use crate::types::Timestamp;

verus! {

pub const NANOS_PER_SECOND: i128 = 1_000_000_000;

pub const SECONDS_PER_MINUTE: i128 = 60;

pub const SECONDS_PER_HOUR: i128 = 3_600;

pub const SECONDS_PER_DAY: i128 = 86_400;

/// The Julian day that 1970 starts with.
pub const EPOCH_JULIAN_DAY: i128 = 2_440_588;

/// The Julian days of the first and the last date that have a name: the first
/// of January of the year -9999 and the last of December of the year 9999.
pub const FIRST_JULIAN_DAY: i128 = -1_930_999;

pub const LAST_JULIAN_DAY: i128 = 5_373_484;

/// The farthest that a local time can be from UTC, in seconds.
pub const OFFSET_LIMIT: i32 = 93_599;

/// A moment as a clock on the wall shows it, at an offset from UTC in seconds.
#[derive(Clone, Copy, PartialEq, Eq, Structural, Debug)]
pub struct LocalTime {
    pub moment: Timestamp,
    pub offset: i32,
}

impl LocalTime {
    /// Whole seconds since 1970 started by the clock on the wall.
    pub open spec fn seconds(self) -> int {
        self.moment.unix_nanos as int / NANOS_PER_SECOND as int + self.offset
    }

    /// The Julian day that the calendar on the wall shows.
    pub open spec fn julian_day(self) -> int {
        self.seconds() / SECONDS_PER_DAY as int + EPOCH_JULIAN_DAY
    }

    /// The hour that the clock on the wall shows.
    pub open spec fn hour(self) -> int {
        self.seconds() % SECONDS_PER_DAY as int / SECONDS_PER_HOUR as int
    }

    /// The minute that the clock on the wall shows.
    pub open spec fn minute(self) -> int {
        self.seconds() % SECONDS_PER_HOUR as int / SECONDS_PER_MINUTE as int
    }

    /// Whether the day is one that has a name.
    pub open spec fn is_dated(self) -> bool {
        FIRST_JULIAN_DAY <= self.julian_day() <= LAST_JULIAN_DAY
    }

    fn get_seconds(self) -> (seconds: i128)
        ensures
            seconds == self.seconds(),
            -0x1_0000_0000_0000_0000_0000_0000_0000 <= seconds
                <= 0x1_0000_0000_0000_0000_0000_0000_0000,
    {
        let seconds: i128 = self.moment.unix_nanos.checked_div_euclid(NANOS_PER_SECOND).unwrap();
        seconds + self.offset as i128
    }

    /// The Julian day that the calendar on the wall shows.
    pub fn get_julian_day(self) -> (day: i128)
        ensures
            day == self.julian_day(),
            -0x1_0000_0000_0000_0000_0000_0000_0000 <= day
                <= 0x1_0000_0000_0000_0000_0000_0000_0000,
    {
        self.get_seconds().checked_div_euclid(SECONDS_PER_DAY).unwrap() + EPOCH_JULIAN_DAY
    }

    /// Whether the day is one that has a name.
    pub fn has_date(self) -> (dated: bool)
        ensures
            dated == self.is_dated(),
    {
        let day: i128 = self.get_julian_day();
        FIRST_JULIAN_DAY <= day && day <= LAST_JULIAN_DAY
    }
}

/// Whether a year has 366 days.
pub open spec fn is_leap(year: int) -> bool {
    year % 4 == 0 && (year % 100 != 0 || year % 400 == 0)
}

/// How many days a year has.
pub open spec fn year_length(year: int) -> int {
    if is_leap(year) {
        366
    } else {
        365
    }
}

/// How many days a month has.
pub open spec fn month_length(year: int, month: int) -> int {
    if month == 2 {
        year_length(year) - 337
    } else if month == 4 || month == 6 || month == 9 || month == 11 {
        30
    } else {
        31
    }
}

/// How many days of its year come before a month.
pub open spec fn days_before_month(year: int, month: int) -> int
    decreases month,
{
    if month <= 1 {
        0
    } else {
        days_before_month(year, month - 1) + month_length(year, month - 1)
    }
}

/// How many days come before a year, from the first of January of the year 1
/// on.
pub open spec fn days_before_year(year: int) -> int {
    365 * (year - 1) + (year - 1) / 4 - (year - 1) / 100 + (year - 1) / 400
}

/// Whether a Julian day is the day of a date of the Gregorian calendar. The
/// first of January of the year 1 is the Julian day 1721426.
pub open spec fn is_day_of(julian_day: int, year: int, month: int, day: int) -> bool {
    &&& 1 <= month <= 12
    &&& 1 <= day <= month_length(year, month)
    &&& julian_day == 1_721_425 + days_before_year(year) + days_before_month(year, month) + day
}

/// Two digits of a number below a hundred.
pub open spec fn two_digits(n: int) -> Seq<char> {
    seq![numerals::digit_char((n / 10) as nat), numerals::digit_char((n % 10) as nat)]
}

/// A date as YYYY-MM-DD, with a minus sign in front of a year before the year 0.
pub open spec fn calendar_text(year: int, month: int, day: int) -> Seq<char> {
    let (sign, size) = if year < 0 {
        ("-"@, -year)
    } else {
        (""@, year)
    };
    sign + two_digits(size / 100) + two_digits(size % 100) + "-"@ + two_digits(month) + "-"@
        + two_digits(day)
}

/// Whether a text names the date that has a Julian day.
pub open spec fn names_day(name: Seq<char>, julian_day: int) -> bool {
    exists|year: int, month: int, day: int|
        #[trigger] is_day_of(julian_day, year, month, day) && name == calendar_text(
            year,
            month,
            day,
        )
}

/// The name of a day, such as `2026-07-10`, by its Julian day.
pub open spec fn date_text(julian_day: int) -> Seq<char> {
    let (year, month, day) = choose|year: int, month: int, day: int|
        is_day_of(julian_day, year, month, day);
    calendar_text(year, month, day)
}

proof fn lemma_years(a: int, b: int)
    requires
        a < b,
    ensures
        days_before_year(a) + year_length(a) <= days_before_year(b),
    decreases b - a,
{
    let last = b - 1;
    assert(days_before_year(b) == days_before_year(last) + year_length(last)) by {
        assert(last / 4 - (last - 1) / 4 == (if last % 4 == 0 {
            1int
        } else {
            0
        }));
        assert(last / 100 - (last - 1) / 100 == (if last % 100 == 0 {
            1int
        } else {
            0
        }));
        assert(last / 400 - (last - 1) / 400 == (if last % 400 == 0 {
            1int
        } else {
            0
        }));
    }
    if a < last {
        lemma_years(a, last);
    }
}

proof fn lemma_months(year: int, a: int, b: int)
    requires
        1 <= a < b,
    ensures
        days_before_month(year, a) + month_length(year, a) <= days_before_month(year, b),
        0 <= days_before_month(year, a),
    decreases b,
{
    if a < b - 1 {
        lemma_months(year, a, b - 1);
    } else if 1 < a {
        lemma_months(year, 1, a);
    }
}

/// The days before a month and those of the month are days of the year.
proof fn lemma_month_in_year(year: int, month: int)
    requires
        1 <= month <= 12,
    ensures
        0 <= days_before_month(year, month),
        days_before_month(year, month) + month_length(year, month) <= year_length(year),
{
    reveal_with_fuel(days_before_month, 13);
    assert(days_before_month(year, 13) == year_length(year));
    lemma_months(year, month, 13);
}

/// Every date has a Julian day of its own, by which it is spelled.
pub proof fn dates_are_spelled_by_the_calendar(
    julian_day: int,
    year: int,
    month: int,
    day: int,
)
    requires
        is_day_of(julian_day, year, month, day),
    ensures
        date_text(julian_day) == calendar_text(year, month, day),
{
    let (y, m, d) = choose|y: int, m: int, d: int| is_day_of(julian_day, y, m, d);
    lemma_month_in_year(year, month);
    lemma_month_in_year(y, m);
    if y < year {
        lemma_years(y, year);
    } else if year < y {
        lemma_years(year, y);
    } else if m < month {
        lemma_months(year, m, month);
    } else if month < m {
        lemma_months(year, month, m);
    }
}

/// `time::Date::from_julian_day`, and what the `Date` prints as: the year with
/// four digits, the month and the day with two each, of the date that has this
/// Julian day. The days from the year -9999 to the year 9999 are the ones that
/// it accepts.
#[verifier::external_body]
fn print_date(julian_day: i32) -> (name: String)
    requires
        FIRST_JULIAN_DAY <= julian_day <= LAST_JULIAN_DAY,
    ensures
        names_day(name@, julian_day as int),
{
    time::Date::from_julian_day(julian_day).unwrap().to_string()
}

/// The name of a day by its Julian day.
fn date_name(julian_day: i32) -> (name: String)
    requires
        FIRST_JULIAN_DAY <= julian_day <= LAST_JULIAN_DAY,
    ensures
        name@ == date_text(julian_day as int),
{
    let name = print_date(julian_day);
    proof {
        let (year, month, day) = choose|year: int, month: int, day: int|
            #[trigger] is_day_of(julian_day as int, year, month, day) && name@ == calendar_text(
                year,
                month,
                day,
            );
        dates_are_spelled_by_the_calendar(julian_day as int, year, month, day);
    }
    name
}

/// A day of the week.
#[derive(Clone, Copy, PartialEq, Eq, Structural, Debug)]
pub enum Weekday {
    Monday,
    Tuesday,
    Wednesday,
    Thursday,
    Friday,
    Saturday,
    Sunday,
}

/// The day of the week of a Julian day.
pub open spec fn weekday_of(julian_day: int) -> Weekday {
    let day = julian_day % 7;
    if day == 0 {
        Weekday::Monday
    } else if day == 1 {
        Weekday::Tuesday
    } else if day == 2 {
        Weekday::Wednesday
    } else if day == 3 {
        Weekday::Thursday
    } else if day == 4 {
        Weekday::Friday
    } else if day == 5 {
        Weekday::Saturday
    } else {
        Weekday::Sunday
    }
}

/// `time::Date::weekday` of a date by its Julian day: the week goes round every
/// seven days, and a Julian day that seven divides is a Monday.
#[verifier::external_body]
fn find_weekday(julian_day: i32) -> (weekday: Weekday)
    requires
        FIRST_JULIAN_DAY <= julian_day <= LAST_JULIAN_DAY,
    ensures
        weekday == weekday_of(julian_day as int),
{
    match time::Date::from_julian_day(julian_day).unwrap().weekday() {
        time::Weekday::Monday => Weekday::Monday,
        time::Weekday::Tuesday => Weekday::Tuesday,
        time::Weekday::Wednesday => Weekday::Wednesday,
        time::Weekday::Thursday => Weekday::Thursday,
        time::Weekday::Friday => Weekday::Friday,
        time::Weekday::Saturday => Weekday::Saturday,
        time::Weekday::Sunday => Weekday::Sunday,
    }
}

/// A time of day, such as `09:15`.
pub open spec fn clock_text(hour: int, minute: int) -> Seq<char> {
    two_digits(hour) + ":"@ + two_digits(minute)
}

/// `time::Time::format` by the description `[hour]:[minute]`: the hour of a day
/// of 24 and the minute, each with two digits.
#[verifier::external_body]
fn clock_name(hour: u8, minute: u8) -> (name: String)
    requires
        hour < 24,
        minute < 60,
    ensures
        name@ == clock_text(hour as int, minute as int),
{
    let description = time::format_description::parse_borrowed::<2>("[hour]:[minute]").unwrap();
    time::Time::from_hms(hour, minute, 0).unwrap().format(&description).unwrap()
}

/// The first three letters of a day of the week.
pub open spec fn weekday_text(weekday: Weekday) -> Seq<char> {
    match weekday {
        Weekday::Monday => "Mon"@,
        Weekday::Tuesday => "Tue"@,
        Weekday::Wednesday => "Wed"@,
        Weekday::Thursday => "Thu"@,
        Weekday::Friday => "Fri"@,
        Weekday::Saturday => "Sat"@,
        Weekday::Sunday => "Sun"@,
    }
}

/// The first three letters of a day of the week.
pub fn weekday_short(weekday: Weekday) -> (name: &'static str)
    ensures
        name@ == weekday_text(weekday),
{
    match weekday {
        Weekday::Monday => "Mon",
        Weekday::Tuesday => "Tue",
        Weekday::Wednesday => "Wed",
        Weekday::Thursday => "Thu",
        Weekday::Friday => "Fri",
        Weekday::Saturday => "Sat",
        Weekday::Sunday => "Sun",
    }
}

/// How a moment is said that was `delta` nanoseconds ago, when the wall showed
/// `ts` then and shows `now` now.
///
/// - more than 30s ahead: YYYY-MM-DD
/// - <45s: "now"
/// - <60m: "N min ago"
/// - <24h same local day: "N hr ago"
/// - previous local day: "yesterday HH:MM"
/// - <7 days: weekday name + local HH:MM
/// - >=7 days: YYYY-MM-DD
pub open spec fn delta_text(delta: int, ts: LocalTime, now: LocalTime) -> Seq<char> {
    let seconds = delta / NANOS_PER_SECOND as int;
    let days = now.julian_day() - ts.julian_day();
    let clock = clock_text(ts.hour(), ts.minute());
    if delta < -30 * NANOS_PER_SECOND {
        date_text(ts.julian_day())
    } else if seconds < 45 {
        "now"@
    } else if seconds < 60 * 60 {
        numerals::decimal((seconds / 60) as nat) + " min ago"@
    } else if seconds < 24 * 60 * 60 && days == 0 {
        numerals::decimal((seconds / 3600) as nat) + " hr ago"@
    } else if days == 1 {
        "yesterday "@ + clock
    } else if days < 7 {
        weekday_text(weekday_of(ts.julian_day())) + " "@ + clock
    } else {
        date_text(ts.julian_day())
    }
}

/// The time of day of a moment, such as `09:15`.
fn clock_string(ts: LocalTime) -> (clock: String)
    ensures
        clock@ == clock_text(ts.hour(), ts.minute()),
{
    let seconds: i128 = ts.get_seconds();
    let of_day: i128 = seconds.checked_rem_euclid(SECONDS_PER_DAY).unwrap();
    let of_hour: i128 = seconds.checked_rem_euclid(SECONDS_PER_HOUR).unwrap();
    clock_name((of_day / SECONDS_PER_HOUR) as u8, (of_hour / SECONDS_PER_MINUTE) as u8)
}

/// Say a moment that was `delta` nanoseconds ago, when the wall showed `ts`
/// then and shows `now` now.
pub fn format_delta(delta: i128, ts: LocalTime, now: LocalTime) -> (said: String)
    requires
        ts.is_dated(),
    ensures
        said@ == delta_text(delta as int, ts, now),
{
    let day: i128 = ts.get_julian_day();
    if delta < -30_000_000_000 {
        return date_name(day as i32);
    }
    let seconds: i128 = delta.checked_div_euclid(NANOS_PER_SECOND).unwrap();
    if seconds < 45 {
        return "now".to_owned();
    }
    if seconds < 60 * 60 {
        let mut said = decimal_text((seconds / 60) as u64);
        said.append(" min ago");
        return said;
    }
    let days: i128 = now.get_julian_day() - day;
    if seconds < 24 * 60 * 60 && days == 0 {
        let mut said = decimal_text((seconds / 3600) as u64);
        said.append(" hr ago");
        return said;
    }
    if days == 1 {
        let mut said = "yesterday ".to_owned();
        said.append(clock_string(ts).as_str());
        return said;
    }
    if days < 7 {
        let mut said = weekday_short(find_weekday(day as i32)).to_owned();
        said.append(" ");
        said.append(clock_string(ts).as_str());
        return said;
    }
    date_name(day as i32)
}

/// What the clock shows, and how far local time is from UTC, in seconds.
#[derive(Clone, Copy, PartialEq, Eq, Structural, Debug)]
pub struct Clock {
    pub now: Timestamp,
    pub offset: i32,
}

impl Clock {
    /// A moment by this clock's local time.
    pub open spec fn local(self, moment: Timestamp) -> LocalTime {
        LocalTime { moment, offset: self.offset }
    }

    /// Whether this clock can say a moment, however long ago it was.
    pub open spec fn can_say(self, moment: Timestamp) -> bool {
        &&& self.local(moment).is_dated()
        &&& i128::MIN <= self.now.unix_nanos - moment.unix_nanos <= i128::MAX
    }

    /// How a moment is said by this clock.
    pub open spec fn says(self, moment: Timestamp) -> Seq<char> {
        delta_text(
            self.now.unix_nanos - moment.unix_nanos,
            self.local(moment),
            self.local(self.now),
        )
    }

    /// Whether this clock can say a moment.
    pub fn has_words_for(self, moment: Timestamp) -> (can: bool)
        ensures
            can == self.can_say(moment),
    {
        let ts = LocalTime { moment, offset: self.offset };
        ts.has_date() && self.now.unix_nanos.checked_sub(moment.unix_nanos).is_some()
    }

    /// Say a moment by this clock.
    pub fn say(self, moment: Timestamp) -> (said: String)
        requires
            self.can_say(moment),
        ensures
            said@ == self.says(moment),
    {
        let ts = LocalTime { moment, offset: self.offset };
        let now = LocalTime { moment: self.now, offset: self.offset };
        format_delta(self.now.unix_nanos - moment.unix_nanos, ts, now)
    }
}

/// `time::OffsetDateTime::now_utc` and its `unix_timestamp_nanos`: a moment from
/// the year -9999 to the year 9999.
#[verifier::external_body]
fn now_utc() -> (nanos: i128)
    ensures
        -377_705_116_800 * NANOS_PER_SECOND <= nanos < 253_402_300_800 * NANOS_PER_SECOND,
{
    time::OffsetDateTime::now_utc().unix_timestamp_nanos()
}

/// `time::UtcOffset::current_local_offset` and its `whole_seconds`, or `None`
/// where the offset cannot be found out. An offset is less than 26 hours.
#[verifier::external_body]
fn current_local_offset() -> (offset: Option<i32>)
    ensures
        offset matches Some(seconds) ==> -OFFSET_LIMIT <= seconds <= OFFSET_LIMIT,
{
    match time::UtcOffset::current_local_offset() {
        Ok(offset) => Some(offset.whole_seconds()),
        Err(_) => None,
    }
}

/// Whether the time crate can hold a moment.
pub open spec fn is_representable(moment: Timestamp) -> bool {
    -377_705_116_800 * NANOS_PER_SECOND <= moment.unix_nanos < 253_402_300_800 * NANOS_PER_SECOND
}

/// The moment that a text spells by RFC 3339, in nanoseconds since 1970 started,
/// if it spells one.
pub uninterp spec fn rfc3339_nanos(s: Seq<char>) -> Option<int>;

/// `time::OffsetDateTime::parse` by the well-known format `Rfc3339`, and the
/// `unix_timestamp_nanos` of what it gives; `None` where it gives an error.
#[verifier::external_body]
fn parse_rfc3339(s: &str) -> (nanos: Option<i128>)
    ensures
        (match nanos {
            Some(nanos) => Some(nanos as int),
            None => None,
        }) == rfc3339_nanos(s@),
{
    match time::OffsetDateTime::parse(s, &time::format_description::well_known::Rfc3339) {
        Ok(moment) => Some(moment.unix_timestamp_nanos()),
        Err(_) => None,
    }
}

impl Timestamp {
    /// The moment that a text spells by RFC 3339, if it spells one.
    pub fn from_rfc3339(s: &str) -> (moment: Option<Timestamp>)
        ensures
            (match moment {
                Some(moment) => Some(moment.unix_nanos as int),
                None => None,
            }) == rfc3339_nanos(s@),
    {
        match parse_rfc3339(s) {
            Some(unix_nanos) => Some(Timestamp { unix_nanos }),
            None => None,
        }
    }
}

impl Clock {
    /// The clock that shows `now`, where the local offset is `offset` seconds.
    /// Where that cannot be found out, it is the offset of UTC.
    pub fn showing(now: Timestamp, offset: Option<i32>) -> (clock: Clock)
        ensures
            clock.now == now,
            offset matches Some(seconds) ==> clock.offset == seconds,
            offset is None ==> clock.offset == 0,
    {
        match offset {
            Some(seconds) => Clock { now, offset: seconds },
            None => Clock { now, offset: 0 },
        }
    }

    /// Whether this is what the machine's clock shows: the time in UTC that was
    /// asked for, at the local offset that was asked for, or at that of UTC where
    /// the local one could not be found out.
    pub closed spec fn was_read(self) -> bool {
        exists|now: i128, offset: Option<i32>|
            #![trigger call_ensures(now_utc, (), now), call_ensures(
                current_local_offset,
                (),
                offset,
            )]
            call_ensures(now_utc, (), now) && call_ensures(current_local_offset, (), offset)
                && self.now.unix_nanos == now && self.offset == (match offset {
                Some(seconds) => seconds,
                None => 0,
            })
    }

    /// Read the clock: the time that it shows now, and the local offset, or that
    /// of UTC where the local one cannot be found out.
    pub fn read() -> (clock: Clock)
        ensures
            is_representable(clock.now),
            -OFFSET_LIMIT <= clock.offset <= OFFSET_LIMIT,
            clock.was_read(),
    {
        let offset = current_local_offset();
        let now: i128 = now_utc();
        assert(call_ensures(now_utc, (), now));
        assert(call_ensures(current_local_offset, (), offset));
        Clock::showing(Timestamp { unix_nanos: now }, offset)
    }
}

/// Whether a moment has a date at every offset from UTC that there is.
pub open spec fn is_dated_everywhere(moment: Timestamp) -> bool {
    (-377_705_116_800 + OFFSET_LIMIT) * NANOS_PER_SECOND <= moment.unix_nanos && moment.unix_nanos
        < (253_402_300_800 - OFFSET_LIMIT) * NANOS_PER_SECOND
}

/// A moment of the current local day that is not ahead is said as now, or in
/// minutes or hours.
pub proof fn same_day_is_said_by_distance(clock: Clock, moment: Timestamp)
    requires
        moment.unix_nanos <= clock.now.unix_nanos,
        clock.local(moment).julian_day() == clock.local(clock.now).julian_day(),
    ensures
        ({
            let seconds = (clock.now.unix_nanos - moment.unix_nanos) / NANOS_PER_SECOND as int;
            clock.says(moment) == (if seconds < 45 {
                "now"@
            } else if seconds < 3600 {
                numerals::decimal((seconds / 60) as nat) + " min ago"@
            } else {
                numerals::decimal((seconds / 3600) as nat) + " hr ago"@
            })
        }),
{
}

/// A moment of the previous local day that is an hour or more ago is said by
/// its time of day.
pub proof fn previous_day_is_yesterday(clock: Clock, moment: Timestamp)
    requires
        moment.unix_nanos + 3600 * NANOS_PER_SECOND <= clock.now.unix_nanos,
        clock.local(moment).julian_day() + 1 == clock.local(clock.now).julian_day(),
    ensures
        clock.says(moment) == "yesterday "@ + clock_text(
            clock.local(moment).hour(),
            clock.local(moment).minute(),
        ),
{
}

/// A moment two to six local days ago is said by its day of the week and its
/// time of day.
pub proof fn recent_days_are_said_by_weekday(clock: Clock, moment: Timestamp)
    requires
        2 <= clock.local(clock.now).julian_day() - clock.local(moment).julian_day() <= 6,
    ensures
        clock.says(moment) == weekday_text(weekday_of(clock.local(moment).julian_day())) + " "@
            + clock_text(clock.local(moment).hour(), clock.local(moment).minute()),
{
}

/// A moment seven local days ago or more is said by its date.
pub proof fn old_moments_are_said_by_date(clock: Clock, moment: Timestamp)
    requires
        clock.local(moment).julian_day() + 7 <= clock.local(clock.now).julian_day(),
    ensures
        clock.says(moment) == date_text(clock.local(moment).julian_day()),
{
}

/// Format a timestamp relative to now, in local time.
///
/// - <45s: "now"
/// - <60m: "N min ago"
/// - <24h same local day: "N hr ago"
/// - previous local day: "yesterday HH:MM"
/// - <7 days: weekday name + local HH:MM
/// - >=7 days: YYYY-MM-DD
pub fn relative(ts_utc: Timestamp) -> (said: String)
    requires
        is_dated_everywhere(ts_utc),
    ensures
        exists|clock: Clock|
            call_ensures(Clock::read, (), clock) && said@ == #[trigger] clock.says(ts_utc),
{
    let clock = Clock::read();
    assert(LocalTime { moment: ts_utc, offset: clock.offset }.is_dated());
    clock.say(ts_utc)
}

/// The wall shows the minute that a moment is in by local time: the day, hour and
/// minute that it shows start no later than the moment moved on by the offset,
/// and less than a minute earlier, whether the offset is ahead of UTC or behind
/// it.
pub proof fn the_wall_shows_local_time(local: LocalTime)
    ensures
        ({
            let shown = 60 * (60 * (24 * (local.julian_day() - 2_440_588) + local.hour())
                + local.minute());
            let now = local.moment.unix_nanos + local.offset * 1_000_000_000;
            &&& 0 <= local.hour() < 24
            &&& 0 <= local.minute() < 60
            &&& shown * 1_000_000_000 <= now < (shown + 60) * 1_000_000_000
        }),
{
    let nanos = local.moment.unix_nanos as int;
    let s = local.seconds();
    let day = s / 86_400;
    let of_day = s % 86_400;
    let hour = of_day / 3_600;
    assert(s == 86_400 * day + of_day);
    assert(of_day == 3_600 * hour + of_day % 3_600);
    assert(s % 3_600 == of_day % 3_600);
    assert(nanos == 1_000_000_000 * (nanos / 1_000_000_000) + nanos % 1_000_000_000);
}

/// A local time shows what the moment that is later by the offset shows in UTC,
/// for every offset.
pub proof fn offsets_move_the_clock(local: LocalTime, moved: LocalTime)
    requires
        moved.offset == 0,
        moved.moment.unix_nanos == local.moment.unix_nanos + local.offset * 1_000_000_000,
    ensures
        local.julian_day() == moved.julian_day(),
        local.hour() == moved.hour(),
        local.minute() == moved.minute(),
{
    let nanos = local.moment.unix_nanos as int;
    assert((nanos + local.offset * 1_000_000_000) / 1_000_000_000 == nanos / 1_000_000_000
        + local.offset);
}

/// An hour more of offset is an hour more on the wall, with the day going on at
/// midnight.
pub proof fn an_hour_of_offset_is_an_hour_on_the_wall(local: LocalTime, later: LocalTime)
    requires
        later.moment == local.moment,
        later.offset == local.offset + 3_600,
    ensures
        later.minute() == local.minute(),
        local.hour() < 23 ==> later.hour() == local.hour() + 1 && later.julian_day()
            == local.julian_day(),
        local.hour() == 23 ==> later.hour() == 0 && later.julian_day() == local.julian_day() + 1,
{
    the_wall_shows_local_time(local);
    the_wall_shows_local_time(later);
}

/// A clock says a moment by how long ago it was, and by what the wall shows at the
/// clock's own offset, of the moment as of now.
pub proof fn clocks_go_by_their_own_offset(clock: Clock, moment: Timestamp)
    ensures
        clock.says(moment) == delta_text(
            clock.now.unix_nanos - moment.unix_nanos,
            LocalTime { moment, offset: clock.offset },
            LocalTime { moment: clock.now, offset: clock.offset },
        ),
{
}

/// What is more than half a minute ahead is said by its date.
pub proof fn moments_ahead_are_said_by_date(delta: int, ts: LocalTime, now: LocalTime)
    requires
        delta < -30_000_000_000,
    ensures
        delta_text(delta, ts, now) == date_text(ts.julian_day()),
{
}

/// What is less than 45 seconds ago, or less than half a minute ahead, is said as
/// now, whatever days it is between.
pub proof fn moments_at_hand_are_now(delta: int, ts: LocalTime, now: LocalTime)
    requires
        -30_000_000_000 <= delta < 45_000_000_000,
    ensures
        delta_text(delta, ts, now) == "now"@,
{
}

/// What is less than an hour ago is said in whole minutes, whatever days it is
/// between.
pub proof fn the_last_hour_is_said_in_minutes(
    delta: int,
    minutes: nat,
    ts: LocalTime,
    now: LocalTime,
)
    requires
        45_000_000_000 <= delta,
        60_000_000_000 * minutes <= delta < 60_000_000_000 * (minutes + 1),
        minutes < 60,
    ensures
        delta_text(delta, ts, now) == numerals::decimal(minutes) + " min ago"@,
{
    let seconds = delta / 1_000_000_000;
    assert(seconds < 3_600 && 45 <= seconds);
    assert(60 * minutes <= seconds < 60 * (minutes + 1));
    assert(seconds / 60 == minutes);
}

/// What is an hour ago or more, on the same local day, is said in whole hours.
pub proof fn the_same_day_is_said_in_hours(delta: int, hours: nat, ts: LocalTime, now: LocalTime)
    requires
        1 <= hours < 24,
        3_600_000_000_000 * hours <= delta < 3_600_000_000_000 * (hours + 1),
        ts.julian_day() == now.julian_day(),
    ensures
        delta_text(delta, ts, now) == numerals::decimal(hours) + " hr ago"@,
{
    let seconds = delta / 1_000_000_000;
    assert(3_600 * hours <= seconds < 3_600 * (hours + 1));
    assert(seconds / 3_600 == hours);
}

/// What is an hour ago or more, and not of the same local day, is said by the days
/// between: the day before is yesterday, up to six days are said by the day of the
/// week, both with the time of day, and more by the date.
pub proof fn earlier_days_are_said_by_their_distance(
    delta: int,
    days: int,
    ts: LocalTime,
    now: LocalTime,
)
    requires
        delta >= 3_600_000_000_000,
        days == now.julian_day() - ts.julian_day(),
        days != 0 || delta >= 86_400_000_000_000,
    ensures
        delta_text(delta, ts, now) == (if days == 1 {
            "yesterday "@ + clock_text(ts.hour(), ts.minute())
        } else if days <= 6 {
            weekday_text(weekday_of(ts.julian_day())) + " "@ + clock_text(ts.hour(), ts.minute())
        } else {
            date_text(ts.julian_day())
        }),
{
    assert(delta / 1_000_000_000 >= 3_600);
    assert(days == 0 ==> delta / 1_000_000_000 >= 86_400);
}

/// The days of the week go round in their order, each by the first three letters
/// of its name.
pub proof fn weekdays_have_their_names(julian_day: int)
    ensures
        julian_day % 7 == 0 ==> weekday_text(weekday_of(julian_day)) == "Mon"@,
        julian_day % 7 == 1 ==> weekday_text(weekday_of(julian_day)) == "Tue"@,
        julian_day % 7 == 2 ==> weekday_text(weekday_of(julian_day)) == "Wed"@,
        julian_day % 7 == 3 ==> weekday_text(weekday_of(julian_day)) == "Thu"@,
        julian_day % 7 == 4 ==> weekday_text(weekday_of(julian_day)) == "Fri"@,
        julian_day % 7 == 5 ==> weekday_text(weekday_of(julian_day)) == "Sat"@,
        julian_day % 7 == 6 ==> weekday_text(weekday_of(julian_day)) == "Sun"@,
{
}

/// The days that have a name are those of the years -9999 to 9999.
pub proof fn dated_days_are_those_of_the_calendar(
    local: LocalTime,
    year: int,
    month: int,
    day: int,
)
    requires
        is_day_of(local.julian_day(), year, month, day),
    ensures
        local.is_dated() <==> -9_999 <= year <= 9_999,
{
    lemma_month_in_year(year, month);
    if year < -9_999 {
        lemma_years(year, -9_999);
    } else if year > -9_999 {
        lemma_years(-9_999, year);
    }
    if year < 9_999 {
        lemma_years(year, 9_999);
    } else if year > 9_999 {
        lemma_years(9_999, year);
    }
}

/// A clock can say every moment that has a date by its local time, unless the time
/// between cannot be counted.
pub proof fn clocks_can_say_what_has_a_date(clock: Clock, moment: Timestamp)
    ensures
        clock.can_say(moment) <==> {
            &&& LocalTime { moment, offset: clock.offset }.is_dated()
            &&& i128::MIN <= clock.now.unix_nanos - moment.unix_nanos <= i128::MAX
        },
{
}

/// Days follow each other: the day after a date is the next of its month, or else
/// the first of the next month, or else the first of the next year. January 1970
/// starts with the day from which moments are counted.
pub proof fn days_follow_each_other(julian_day: int, year: int, month: int, day: int)
    requires
        is_day_of(julian_day, year, month, day),
    ensures
        ({
            let leap = year % 400 == 0 || (year % 4 == 0 && year % 100 != 0);
            let last = if month == 2 {
                if leap {
                    29int
                } else {
                    28
                }
            } else if month == 4 || month == 6 || month == 9 || month == 11 {
                30
            } else {
                31
            };
            &&& 1 <= month <= 12
            &&& 1 <= day <= last
            &&& day < last ==> is_day_of(julian_day + 1, year, month, day + 1)
            &&& day == last && month < 12 ==> is_day_of(julian_day + 1, year, month + 1, 1)
            &&& day == last && month == 12 ==> is_day_of(julian_day + 1, year + 1, 1, 1)
        }),
        is_day_of(2_440_588, 1970, 1, 1),
{
    lemma_one_year(year);
    assert(days_before_month(year + 1, 1) == 0);
    reveal_with_fuel(days_before_month, 13);
    assert(days_before_month(year, 12) + 31 == year_length(year));
}

proof fn lemma_one_year(year: int)
    ensures
        days_before_year(year + 1) == days_before_year(year) + year_length(year),
{
    assert(year / 4 - (year - 1) / 4 == (if year % 4 == 0 {
        1int
    } else {
        0
    }));
    assert(year / 100 - (year - 1) / 100 == (if year % 100 == 0 {
        1int
    } else {
        0
    }));
    assert(year / 400 - (year - 1) / 400 == (if year % 400 == 0 {
        1int
    } else {
        0
    }));
}

/// A day is of one date only.
pub proof fn days_have_one_date(
    julian_day: int,
    year: int,
    month: int,
    day: int,
    y: int,
    m: int,
    d: int,
)
    requires
        is_day_of(julian_day, year, month, day),
        is_day_of(julian_day, y, m, d),
    ensures
        year == y && month == m && day == d,
{
    lemma_month_in_year(year, month);
    lemma_month_in_year(y, m);
    if y < year {
        lemma_years(y, year);
    } else if year < y {
        lemma_years(year, y);
    } else if m < month {
        lemma_months(year, m, month);
    } else if month < m {
        lemma_months(year, month, m);
    }
}

/// A date is spelled by the four digits of its year, the two of its month and the
/// two of its day, with dashes between and a minus sign in front of a year before
/// the year 0.
pub proof fn dates_are_spelled_digit_by_digit(julian_day: int, year: int, month: int, day: int)
    requires
        is_day_of(julian_day, year, month, day),
        -9_999 <= year <= 9_999,
    ensures
        year >= 0 ==> date_text(julian_day) == spelled_date(year, month, day),
        year < 0 ==> date_text(julian_day) == seq!['-'] + spelled_date(-year, month, day),
{
    dates_are_spelled_by_the_calendar(julian_day, year, month, day);
    lemma_calendar_text(year, month, day);
}

proof fn lemma_year_digits(size: int)
    requires
        0 <= size <= 9_999,
    ensures
        size / 100 / 10 == size / 1000,
        size % 100 / 10 == size / 10 % 10,
        size % 100 % 10 == size % 10,
{
}

proof fn lemma_spelled(sign: Seq<char>, size: int, month: int, day: int)
    requires
        0 <= size <= 9_999,
        1 <= month <= 12,
        1 <= day <= 31,
    ensures
        sign + two_digits(size / 100) + two_digits(size % 100) + "-"@ + two_digits(month) + "-"@
            + two_digits(day) == sign + spelled_date(size, month, day),
{
    reveal_strlit("-");
    lemma_year_digits(size);
    let digits = spelled_date(size, month, day);
    let a = two_digits(size / 100);
    let b = two_digits(size % 100);
    let c = two_digits(month);
    let d = two_digits(day);
    assert(a =~= seq![digits[0], digits[1]]);
    assert(b =~= seq![digits[2], digits[3]]);
    assert(c =~= seq![digits[5], digits[6]]);
    assert(d =~= seq![digits[8], digits[9]]);
    assert("-"@ =~= seq![digits[4]]);
    assert(sign + a + b + "-"@ + c + "-"@ + d =~= sign + digits);
}

proof fn lemma_calendar_text(year: int, month: int, day: int)
    requires
        -9_999 <= year <= 9_999,
        1 <= month <= 12,
        1 <= day <= 31,
    ensures
        year >= 0 ==> calendar_text(year, month, day) == spelled_date(year, month, day),
        year < 0 ==> calendar_text(year, month, day) == seq!['-'] + spelled_date(-year, month, day),
{
    reveal_strlit("-");
    reveal_strlit("");
    if year < 0 {
        lemma_spelled("-"@, -year, month, day);
        assert("-"@ =~= seq!['-']);
    } else {
        lemma_spelled(""@, year, month, day);
        assert(""@ + spelled_date(year, month, day) =~= spelled_date(year, month, day));
    }
}

/// The digits of a date, counted on from the character `0`.
pub open spec fn spelled_date(year: int, month: int, day: int) -> Seq<char> {
    seq![
        ('0' as int + year / 1000) as char,
        ('0' as int + year / 100 % 10) as char,
        ('0' as int + year / 10 % 10) as char,
        ('0' as int + year % 10) as char,
        '-',
        ('0' as int + month / 10) as char,
        ('0' as int + month % 10) as char,
        '-',
        ('0' as int + day / 10) as char,
        ('0' as int + day % 10) as char,
    ]
}

/// A time of day is spelled by the two digits of its hour and the two of its
/// minute, with a colon between.
pub proof fn times_of_day_are_spelled_digit_by_digit(hour: int, minute: int)
    requires
        0 <= hour < 24,
        0 <= minute < 60,
    ensures
        clock_text(hour, minute) == seq![
            ('0' as int + hour / 10) as char,
            ('0' as int + hour % 10) as char,
            ':',
            ('0' as int + minute / 10) as char,
            ('0' as int + minute % 10) as char,
        ],
{
    reveal_strlit(":");
    assert(clock_text(hour, minute) =~= seq![
        ('0' as int + hour / 10) as char,
        ('0' as int + hour % 10) as char,
        ':',
        ('0' as int + minute / 10) as char,
        ('0' as int + minute % 10) as char,
    ]);
}


} // verus!
