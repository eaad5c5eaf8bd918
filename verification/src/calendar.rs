//! Local wall-clock time and the calendar periods that usage is counted in.
use crate::text;
use chrono::Datelike;
use chrono::Timelike;
use vstd::arithmetic::div_mod::*;
use vstd::prelude::*;
use vstd::string::*;

verus! {

/// First supported year.
pub const MIN_YEAR: i32 = -262143;

/// Last supported year.
pub const MAX_YEAR: i32 = 262142;

pub open spec fn is_leap_year(year: int) -> bool {
    year % 4 == 0 && (year % 100 != 0 || year % 400 == 0)
}

pub open spec fn days_in_year(year: int) -> int {
    if is_leap_year(year) {
        366
    } else {
        365
    }
}

pub open spec fn days_in_month(year: int, month: int) -> int {
    if month == 2 {
        if is_leap_year(year) {
            29
        } else {
            28
        }
    } else if month == 4 || month == 6 || month == 9 || month == 11 {
        30
    } else {
        31
    }
}

/// Whether a year, month and day name a day of the proleptic Gregorian
/// calendar.
pub open spec fn is_calendar_day(year: int, month: int, day: int) -> bool {
    &&& 1 <= month <= 12
    &&& 1 <= day <= days_in_month(year, month)
}

/// Whether a year, month and day name a day within the supported years.
pub open spec fn is_date(year: int, month: int, day: int) -> bool {
    &&& MIN_YEAR <= year <= MAX_YEAR
    &&& is_calendar_day(year, month, day)
}

/// Days between 1 January of the year 1 and 1 January of `year`.
pub open spec fn days_before_year(year: int) -> int {
    365 * (year - 1) + (year - 1) / 4 - (year - 1) / 100 + (year - 1) / 400
}

/// Days of `year` before the first day of `month`.
pub open spec fn days_before_month(year: int, month: int) -> int
    decreases month,
{
    if month <= 1 {
        0
    } else {
        days_before_month(year, month - 1) + days_in_month(year, month - 1)
    }
}

/// Position of a day in the calendar. 1 January of the year 1 is day 1.
pub open spec fn day_number(year: int, month: int, day: int) -> int {
    days_before_year(year) + days_before_month(year, month) + day
}

/// Day of the week, counted from Monday as 0. Day 1 is a Monday.
pub open spec fn weekday(day_number: int) -> int {
    (day_number - 1) % 7
}

/// The Monday that starts the week of a day.
pub open spec fn monday_of(day_number: int) -> int {
    day_number - weekday(day_number)
}

/// The Monday of the first ISO 8601 week of `year`: the week with 4 January in it.
pub open spec fn first_monday(year: int) -> int {
    monday_of(day_number(year, 1, 4))
}

/// Whether week `week` of the ISO 8601 week-numbering year `year` is the week
/// that a day lies in.
pub open spec fn is_iso_week(year: int, week: int, day_number: int) -> bool {
    &&& 1 <= week
    &&& monday_of(day_number) == first_monday(year) + 7 * (week - 1)
    &&& monday_of(day_number) < first_monday(year + 1)
}

/// Looks up a date with chrono's `NaiveDate::from_ymd_opt` and returns the year
/// and the number of its week from `Datelike::iso_week`.
///
/// Trusted: chrono knows exactly the dates of the proleptic Gregorian calendar
/// from `MIN_YEAR` to `MAX_YEAR`, and gives each its ISO 8601 week. Weeks run
/// from Monday to Sunday, and the first one of a year holds 4 January.
#[verifier::external_body]
fn iso_week_of_date(year: i32, month: u32, day: u32) -> (week: Option<(i32, u32)>)
    ensures
        week is Some <==> is_date(year as int, month as int, day as int),
        week matches Some((y, w)) ==> is_iso_week(
            y as int,
            w as int,
            day_number(year as int, month as int, day as int),
        ),
{
    let date = chrono::NaiveDate::from_ymd_opt(year, month, day)?;
    Some((date.iso_week().year(), date.iso_week().week()))
}

/// The day that a second lies in, counted from midnight at the start of
/// 1 January 1970.
pub open spec fn day_of_second(seconds: int) -> int {
    day_number(1970, 1, 1) + seconds / 86400
}

/// Whether a day lies within the supported years.
pub open spec fn is_supported_day(day_number: int) -> bool {
    self::day_number(MIN_YEAR as int, 1, 1) <= day_number <= self::day_number(
        MAX_YEAR as int,
        12,
        31,
    )
}

/// A local wall-clock time as contracts speak of it.
pub struct Moment {
    pub year: int,
    pub month: int,
    pub day: int,
    pub hour: int,
    pub minute: int,
    /// Year that the ISO week is counted in. It can differ from `year` around
    /// New Year.
    pub iso_year: int,
    pub iso_week: int,
}

impl Moment {
    pub open spec fn day_number(self) -> int {
        day_number(self.year, self.month, self.day)
    }

    pub open spec fn valid(self) -> bool {
        &&& is_calendar_day(self.year, self.month, self.day)
        &&& 0 <= self.hour < 24
        &&& 0 <= self.minute < 60
        &&& is_iso_week(self.iso_year, self.iso_week, self.day_number())
    }

    /// Whether this is what a clock shows that many seconds after it showed
    /// midnight at the start of 1 January 1970.
    pub open spec fn is_at(self, seconds: int) -> bool {
        &&& self.valid()
        &&& self.day_number() == day_of_second(seconds)
        &&& self.hour == seconds % 86400 / 3600
        &&& self.minute == seconds % 3600 / 60
    }

    /// Whether this time is `other` or comes before it.
    pub open spec fn up_to(self, other: Moment) -> bool {
        ||| self.year < other.year
        ||| self.year == other.year && self.month < other.month
        ||| self.year == other.year && self.month == other.month && self.day < other.day
        ||| self.year == other.year && self.month == other.month && self.day == other.day
            && self.hour < other.hour
        ||| self.year == other.year && self.month == other.month && self.day == other.day
            && self.hour == other.hour && self.minute <= other.minute
    }

    /// `YYYY-MM`
    pub open spec fn month_key(self) -> Seq<char> {
        text::padded(self.year, 4) + seq!['-'] + text::padded(self.month, 2)
    }

    /// `YYYY-Www`
    pub open spec fn week_key(self) -> Seq<char> {
        text::padded(self.iso_year, 4) + seq!['-', 'W'] + text::padded(self.iso_week, 2)
    }

    /// `YYYY-MM-DD`
    pub open spec fn day_key(self) -> Seq<char> {
        self.month_key() + seq!['-'] + text::padded(self.day, 2)
    }

    /// `YYYY-MM-DDThh`
    pub open spec fn hour_key(self) -> Seq<char> {
        self.day_key() + seq!['T'] + text::padded(self.hour, 2)
    }

    /// `YYYY-MM-DDThh:mm`
    pub open spec fn minute_key(self) -> Seq<char> {
        self.hour_key() + seq![':'] + text::padded(self.minute, 2)
    }
}

/// Whether a Unix time stamp lies within the supported years in UTC, and a UTC
/// offset is less than a day.
pub open spec fn is_supported_time(timestamp: int, utc_offset: int) -> bool {
    &&& is_supported_day(day_of_second(timestamp))
    &&& -86400 < utc_offset < 86400
}

/// Takes a Unix time stamp apart at a UTC offset, with chrono's
/// `FixedOffset::east_opt`, `DateTime::from_timestamp` and
/// `DateTime::with_timezone` and the `Datelike` and `Timelike` accessors of the
/// result: year, month, day, hour, minute, and the year and number of the ISO
/// week.
///
/// Trusted: chrono knows exactly the times that lie in a supported year in UTC,
/// and the offsets of less than a day. It gives the local date, which can lie
/// one day beyond the supported years, the local time of day, and the ISO 8601
/// week of that date.
#[verifier::external_body]
fn local_fields(timestamp: i64, utc_offset: i32) -> (fields: Option<
    (i32, u32, u32, u32, u32, i32, u32),
>)
    ensures
        fields is Some <==> is_supported_time(timestamp as int, utc_offset as int),
        fields matches Some((year, month, day, hour, minute, iso_year, iso_week)) ==> (Moment {
            year: year as int,
            month: month as int,
            day: day as int,
            hour: hour as int,
            minute: minute as int,
            iso_year: iso_year as int,
            iso_week: iso_week as int,
        }).is_at(timestamp + utc_offset),
{
    let offset = chrono::FixedOffset::east_opt(utc_offset)?;
    let time = chrono::DateTime::from_timestamp(timestamp, 0)?.with_timezone(&offset);
    let week = time.iso_week();
    let (year, month, day) = (time.year(), time.month(), time.day());
    Some((year, month, day, time.hour(), time.minute(), week.year(), week.week()))
}

/// A local wall-clock time, to the minute.
///
/// It holds the calendar date, the time of day, and the ISO 8601 week of the
/// date.
#[derive(Debug, Clone, Copy)]
pub struct LocalTime {
    year: i32,
    month: u32,
    day: u32,
    hour: u32,
    minute: u32,
    iso_year: i32,
    iso_week: u32,
}

impl View for LocalTime {
    type V = Moment;

    closed spec fn view(&self) -> Moment {
        Moment {
            year: self.year as int,
            month: self.month as int,
            day: self.day as int,
            hour: self.hour as int,
            minute: self.minute as int,
            iso_year: self.iso_year as int,
            iso_week: self.iso_week as int,
        }
    }
}

impl LocalTime {
    #[verifier::type_invariant]
    spec fn well_formed(self) -> bool {
        self@.valid()
    }

    /// The given minute of the given day, or `None` where there is no such day
    /// or no such time of day.
    pub fn new(year: i32, month: u32, day: u32, hour: u32, minute: u32) -> (time: Option<LocalTime>)
        ensures
            time is Some <==> is_date(year as int, month as int, day as int) && hour < 24 && minute
                < 60,
            time matches Some(t) ==> {
                &&& t@.valid()
                &&& t@.year == year
                &&& t@.month == month
                &&& t@.day == day
                &&& t@.hour == hour
                &&& t@.minute == minute
            },
    {
        if hour >= 24 || minute >= 60 {
            return None;
        }
        match iso_week_of_date(year, month, day) {
            Some((iso_year, iso_week)) => Some(
                LocalTime { year, month, day, hour, minute, iso_year, iso_week },
            ),
            None => None,
        }
    }

    /// The local time at a Unix time stamp, where local time is ahead of UTC by
    /// `utc_offset` seconds. `None` where the time is not in a supported year in
    /// UTC, or the offset is a day or more.
    pub fn from_timestamp(timestamp: i64, utc_offset: i32) -> (time: Option<LocalTime>)
        ensures
            time is Some <==> is_supported_time(timestamp as int, utc_offset as int),
            time matches Some(t) ==> t@.is_at(timestamp + utc_offset),
    {
        match local_fields(timestamp, utc_offset) {
            Some((year, month, day, hour, minute, iso_year, iso_week)) => Some(
                LocalTime { year, month, day, hour, minute, iso_year, iso_week },
            ),
            None => None,
        }
    }

    /// Key of the calendar month: `YYYY-MM`.
    pub fn month_key(&self) -> (key: String)
        ensures
            key@ == self@.month_key(),
            self@.valid(),
    {
        proof {
            use_type_invariant(self);
            reveal_strlit("-");
        }
        let mut key: String = String::new();
        text::push_padded(&mut key, self.year, 4);
        key.append("-");
        text::push_padded(&mut key, self.month as i32, 2);
        assert(key@ =~= self@.month_key());
        key
    }

    /// Key of the ISO week: `YYYY-Www`.
    pub fn week_key(&self) -> (key: String)
        ensures
            key@ == self@.week_key(),
            self@.valid(),
    {
        proof {
            use_type_invariant(self);
            lemma_week_bounds(self@);
            reveal_strlit("-W");
        }
        let mut key: String = String::new();
        text::push_padded(&mut key, self.iso_year, 4);
        key.append("-W");
        text::push_padded(&mut key, self.iso_week as i32, 2);
        assert(key@ =~= self@.week_key());
        key
    }

    /// Key of the calendar day: `YYYY-MM-DD`.
    pub fn day_key(&self) -> (key: String)
        ensures
            key@ == self@.day_key(),
            self@.valid(),
    {
        proof {
            use_type_invariant(self);
            reveal_strlit("-");
        }
        let mut key: String = self.month_key();
        key.append("-");
        text::push_padded(&mut key, self.day as i32, 2);
        key
    }

    /// Key of the hour: `YYYY-MM-DDThh`.
    pub fn hour_key(&self) -> (key: String)
        ensures
            key@ == self@.hour_key(),
            self@.valid(),
    {
        proof {
            use_type_invariant(self);
            reveal_strlit("T");
        }
        let mut key: String = self.day_key();
        key.append("T");
        text::push_padded(&mut key, self.hour as i32, 2);
        key
    }

    /// Key of the minute: `YYYY-MM-DDThh:mm`.
    pub fn minute_key(&self) -> (key: String)
        ensures
            key@ == self@.minute_key(),
            self@.valid(),
    {
        proof {
            use_type_invariant(self);
            reveal_strlit(":");
        }
        let mut key: String = self.hour_key();
        key.append(":");
        text::push_padded(&mut key, self.minute as i32, 2);
        key
    }
}

proof fn lemma_fourth_years(year: int)
    ensures
        year / 4 == (year - 1) / 4 + if year % 4 == 0 {
            1int
        } else {
            0int
        },
{
}

proof fn lemma_centuries(year: int)
    ensures
        year / 100 == (year - 1) / 100 + if year % 100 == 0 {
            1int
        } else {
            0int
        },
        year % 100 == 0 ==> year % 4 == 0,
{
}

proof fn lemma_fourth_centuries(year: int)
    ensures
        year / 400 == (year - 1) / 400 + if year % 400 == 0 {
            1int
        } else {
            0int
        },
        year % 400 == 0 ==> year % 100 == 0,
{
}

/// A year has 365 days, or 366 where it is a leap year.
proof fn lemma_year_length(year: int)
    ensures
        days_before_year(year + 1) == days_before_year(year) + days_in_year(year),
{
    lemma_fourth_years(year);
    lemma_centuries(year);
    lemma_fourth_centuries(year);
}

/// The first week of a year starts on a Monday around New Year.
proof fn lemma_first_monday(year: int)
    ensures
        days_before_year(year) - 2 <= first_monday(year) <= days_before_year(year) + 4,
        (first_monday(year) - 1) % 7 == 0,
{
    let fourth = day_number(year, 1, 4);
    assert(fourth == days_before_year(year) + 4);
    lemma_monday(fourth);
}

proof fn lemma_monday(day_number: int)
    ensures
        day_number - 6 <= monday_of(day_number) <= day_number,
        (monday_of(day_number) - 1) % 7 == 0,
{
}

/// A year has 52 or 53 weeks.
proof fn lemma_weeks_of_year(year: int)
    ensures
        first_monday(year) + 364 <= first_monday(year + 1) <= first_monday(year) + 371,
{
    lemma_year_length(year);
    lemma_first_monday(year);
    lemma_first_monday(year + 1);
    lemma_whole_weeks(first_monday(year), first_monday(year + 1));
}

proof fn lemma_whole_weeks(a: int, b: int)
    requires
        (a - 1) % 7 == 0,
        (b - 1) % 7 == 0,
        359 <= b - a <= 372,
    ensures
        364 <= b - a <= 371,
{
}

/// First weeks of two years follow each other as the years do.
proof fn lemma_first_monday_order(a: int, b: int)
    requires
        a < b,
    ensures
        first_monday(a) + 364 <= first_monday(b),
    decreases b - a,
{
    lemma_weeks_of_year(a);
    if a + 1 < b {
        lemma_first_monday_order(a + 1, b);
    }
}

/// Weeks are numbered from 1 to 53.
pub proof fn lemma_week_bounds(t: Moment)
    requires
        t.valid(),
    ensures
        1 <= t.iso_week <= 53,
{
    lemma_weeks_of_year(t.iso_year);
}

/// Two week numbers of one day are the same.
proof fn lemma_iso_week_unique(a: int, v: int, b: int, w: int, day_number: int)
    requires
        is_iso_week(a, v, day_number),
        is_iso_week(b, w, day_number),
    ensures
        a == b,
        v == w,
{
    if a < b {
        if a + 1 < b {
            lemma_first_monday_order(a + 1, b);
        }
    } else if b < a {
        if b + 1 < a {
            lemma_first_monday_order(b + 1, a);
        }
    }
}

/// A date determines its ISO week, so that a time is fixed by its date, hour and
/// minute.
pub proof fn law_date_determines_week(a: Moment, b: Moment)
    requires
        a.valid(),
        b.valid(),
        a.year == b.year,
        a.month == b.month,
        a.day == b.day,
    ensures
        a.iso_year == b.iso_year,
        a.iso_week == b.iso_week,
{
    lemma_iso_week_unique(a.iso_year, a.iso_week, b.iso_year, b.iso_week, a.day_number());
}

/// Which dates there are: 30 days in every month but February, a 31st in seven
/// of them, 28 days in February, and a 29th in years that 4 divides, but in
/// centuries only where 400 does.
pub proof fn law_dates(year: int, month: int, day: int)
    ensures
        is_date(year, month, day) <==> {
            &&& -262143 <= year <= 262142
            &&& 1 <= month <= 12
            &&& 1 <= day
            &&& {
                ||| day <= 28
                ||| day <= 30 && month != 2
                ||| day == 31 && (month == 1 || month == 3 || month == 5 || month == 7 || month == 8
                    || month == 10 || month == 12)
                ||| day == 29 && year % 4 == 0 && (year % 100 != 0 || year % 400 == 0)
            }
        },
{
}

/// Day numbers count days: the number of the next day is one greater, within a
/// month, from one month to the next and from one year to the next.
pub proof fn law_day_numbers_count_days(year: int, month: int, day: int)
    requires
        is_calendar_day(year, month, day),
    ensures
        day_number(year, month, day + 1) == day_number(year, month, day) + 1,
        !is_calendar_day(year, month, day + 1) && month < 12 ==> day_number(year, month + 1, 1)
            == day_number(year, month, day) + 1,
        !is_calendar_day(year, month, day + 1) && month == 12 ==> day_number(year + 1, 1, 1)
            == day_number(year, month, day) + 1,
        day_number(1970, 1, 1) == 719163,
{
    if month == 12 {
        lemma_year_length(year);
        assert(days_before_month(year, 12) + 31 == days_in_year(year)) by {
            reveal_with_fuel(days_before_month, 13);
        }
    }
}

/// A week is the seven days from a Monday on. Day 1 is a Monday.
pub proof fn law_weeks_have_seven_days(day_number: int)
    ensures
        monday_of(day_number) <= day_number < monday_of(day_number) + 7,
        monday_of(day_number) % 7 == 1,
        weekday(day_number) == day_number - monday_of(day_number),
{
}

/// A week is counted in the year that its Thursday lies in, and its number is
/// one more than the whole weeks of that year before that Thursday.
pub proof fn law_weeks_are_numbered_by_their_thursday(t: Moment)
    requires
        t.valid(),
    ensures
        ({
            let thursday = monday_of(t.day_number()) + 3;
            let new_year = day_number(t.iso_year, 1, 1);
            &&& new_year <= thursday < day_number(t.iso_year + 1, 1, 1)
            &&& t.iso_week == (thursday - new_year) / 7 + 1
        }),
{
    let monday = monday_of(t.day_number());
    let first = first_monday(t.iso_year);
    let next = first_monday(t.iso_year + 1);
    lemma_first_monday(t.iso_year);
    lemma_first_monday(t.iso_year + 1);
    lemma_monday(t.day_number());
    lemma_earlier_monday(monday, next);
    lemma_thursday(first + 3 - day_number(t.iso_year, 1, 1), t.iso_week - 1);
}

proof fn lemma_earlier_monday(a: int, b: int)
    requires
        (a - 1) % 7 == 0,
        (b - 1) % 7 == 0,
        a < b,
    ensures
        a + 7 <= b,
{
}

proof fn lemma_thursday(day: int, weeks: int)
    requires
        0 <= day < 7,
    ensures
        (day + 7 * weeks) / 7 == weeks,
{
}

/// What a clock shows is the minute that it is in: the shown day, hour and
/// minute begin no later than the second itself, and less than a minute before.
pub proof fn law_shown_minute_holds_the_second(t: Moment, seconds: int)
    requires
        t.is_at(seconds),
    ensures
        t.valid(),
        0 <= t.hour < 24,
        0 <= t.minute < 60,
        ({
            let start = 86400 * (t.day_number() - 719163) + 3600 * t.hour + 60 * t.minute;
            start <= seconds < start + 60
        }),
{
    lemma_fundamental_div_mod(seconds, 86400);
    lemma_fundamental_div_mod(seconds % 86400, 3600);
    lemma_mod_mod(seconds, 3600, 24);
    lemma_fundamental_div_mod(seconds % 3600, 60);
}

/// Local times are known for the time stamps from the first to the last second
/// of the supported years in UTC, at offsets of less than a day.
pub proof fn law_supported_times(timestamp: int, utc_offset: int)
    ensures
        is_supported_time(timestamp, utc_offset) <==> -8334601228800 <= timestamp <= 8210266876799
            && -86400 < utc_offset < 86400,
{
    assert(days_before_month(MAX_YEAR as int, 12) == 334) by {
        reveal_with_fuel(days_before_month, 13);
    }
    lemma_fundamental_div_mod(timestamp, 86400);
}

/// Keys spell out their period: the year with at least four characters, and
/// every other part with its two digits.
pub proof fn law_keys_spell_out_their_period(t: Moment)
    requires
        t.valid(),
    ensures
        t.month_key() == text::padded(t.year, 4) + seq![
            '-',
            (48 + t.month / 10) as char,
            (48 + t.month % 10) as char,
        ],
        t.day_key() == t.month_key() + seq![
            '-',
            (48 + t.day / 10) as char,
            (48 + t.day % 10) as char,
        ],
        t.hour_key() == t.day_key() + seq![
            'T',
            (48 + t.hour / 10) as char,
            (48 + t.hour % 10) as char,
        ],
        t.minute_key() == t.hour_key() + seq![
            ':',
            (48 + t.minute / 10) as char,
            (48 + t.minute % 10) as char,
        ],
        t.week_key() == text::padded(t.iso_year, 4) + seq![
            '-',
            'W',
            (48 + t.iso_week / 10) as char,
            (48 + t.iso_week % 10) as char,
        ],
{
    lemma_week_bounds(t);
    lemma_ends_in_digits(text::padded(t.year, 4), '-', t.month);
    lemma_ends_in_digits(t.month_key(), '-', t.day);
    lemma_ends_in_digits(t.day_key(), 'T', t.hour);
    lemma_ends_in_digits(t.hour_key(), ':', t.minute);
    lemma_ends_in_digits(text::padded(t.iso_year, 4) + seq!['-'], 'W', t.iso_week);
    lemma_week_mark(
        text::padded(t.iso_year, 4),
        (48 + t.iso_week / 10) as char,
        (48 + t.iso_week % 10) as char,
        text::padded(t.iso_week, 2),
    );
}

proof fn lemma_ends_in_digits(start: Seq<char>, mark: char, n: int)
    requires
        0 <= n < 100,
    ensures
        start + seq![mark] + text::padded(n, 2) == start + seq![
            mark,
            (48 + n / 10) as char,
            (48 + n % 10) as char,
        ],
{
    text::law_two_digits(n);
    assert(start + seq![mark] + text::padded(n, 2) =~= start + seq![
        mark,
        (48 + n / 10) as char,
        (48 + n % 10) as char,
    ]);
}

proof fn lemma_week_mark(start: Seq<char>, tens: char, units: char, week: Seq<char>)
    ensures
        start + seq!['-'] + seq!['W', tens, units] == start + seq!['-', 'W', tens, units],
        start + seq!['-'] + seq!['W'] + week == start + seq!['-', 'W'] + week,
{
    assert(start + seq!['-'] + seq!['W', tens, units] =~= start + seq!['-', 'W', tens, units]);
    assert(start + seq!['-'] + seq!['W'] + week =~= start + seq!['-', 'W'] + week);
}

/// Two times have one month key exactly when they lie in one calendar month.
pub proof fn law_month_key(a: Moment, b: Moment)
    requires
        a.valid(),
        b.valid(),
    ensures
        a.month_key() == b.month_key() <==> a.year == b.year && a.month == b.month,
{
    text::lemma_two_digits(a.month);
    text::lemma_two_digits(b.month);
    text::lemma_split(
        text::padded(a.year, 4) + seq!['-'],
        text::padded(a.month, 2),
        text::padded(b.year, 4) + seq!['-'],
        text::padded(b.month, 2),
    );
    text::lemma_split(text::padded(a.year, 4), seq!['-'], text::padded(b.year, 4), seq!['-']);
    if a.month_key() == b.month_key() {
        text::lemma_padded_injective(a.year, b.year, 4);
        text::lemma_padded_injective(a.month, b.month, 2);
    }
}

/// Two times have one day key exactly when they lie on one calendar day.
pub proof fn law_day_key(a: Moment, b: Moment)
    requires
        a.valid(),
        b.valid(),
    ensures
        a.day_key() == b.day_key() <==> a.year == b.year && a.month == b.month && a.day == b.day,
{
    law_month_key(a, b);
    text::lemma_two_digits(a.day);
    text::lemma_two_digits(b.day);
    text::lemma_split(
        a.month_key() + seq!['-'],
        text::padded(a.day, 2),
        b.month_key() + seq!['-'],
        text::padded(b.day, 2),
    );
    text::lemma_split(a.month_key(), seq!['-'], b.month_key(), seq!['-']);
    if a.day_key() == b.day_key() {
        text::lemma_padded_injective(a.day, b.day, 2);
    }
}

/// Two times have one hour key exactly when they lie in one hour of one day.
pub proof fn law_hour_key(a: Moment, b: Moment)
    requires
        a.valid(),
        b.valid(),
    ensures
        a.hour_key() == b.hour_key() <==> a.year == b.year && a.month == b.month && a.day == b.day
            && a.hour == b.hour,
{
    law_day_key(a, b);
    text::lemma_two_digits(a.hour);
    text::lemma_two_digits(b.hour);
    text::lemma_split(
        a.day_key() + seq!['T'],
        text::padded(a.hour, 2),
        b.day_key() + seq!['T'],
        text::padded(b.hour, 2),
    );
    text::lemma_split(a.day_key(), seq!['T'], b.day_key(), seq!['T']);
    if a.hour_key() == b.hour_key() {
        text::lemma_padded_injective(a.hour, b.hour, 2);
    }
}

/// Two times have one minute key exactly when they lie in one minute of one day.
pub proof fn law_minute_key(a: Moment, b: Moment)
    requires
        a.valid(),
        b.valid(),
    ensures
        a.minute_key() == b.minute_key() <==> a.year == b.year && a.month == b.month && a.day
            == b.day && a.hour == b.hour && a.minute == b.minute,
{
    law_hour_key(a, b);
    text::lemma_two_digits(a.minute);
    text::lemma_two_digits(b.minute);
    text::lemma_split(
        a.hour_key() + seq![':'],
        text::padded(a.minute, 2),
        b.hour_key() + seq![':'],
        text::padded(b.minute, 2),
    );
    text::lemma_split(a.hour_key(), seq![':'], b.hour_key(), seq![':']);
    if a.minute_key() == b.minute_key() {
        text::lemma_padded_injective(a.minute, b.minute, 2);
    }
}

/// Two times have one week key exactly when their weeks start on one Monday.
pub proof fn law_week_key(a: Moment, b: Moment)
    requires
        a.valid(),
        b.valid(),
    ensures
        a.week_key() == b.week_key() <==> monday_of(a.day_number()) == monday_of(b.day_number()),
{
    lemma_week_bounds(a);
    lemma_week_bounds(b);
    text::lemma_two_digits(a.iso_week);
    text::lemma_two_digits(b.iso_week);
    text::lemma_split(
        text::padded(a.iso_year, 4) + seq!['-', 'W'],
        text::padded(a.iso_week, 2),
        text::padded(b.iso_year, 4) + seq!['-', 'W'],
        text::padded(b.iso_week, 2),
    );
    text::lemma_split(
        text::padded(a.iso_year, 4),
        seq!['-', 'W'],
        text::padded(b.iso_year, 4),
        seq!['-', 'W'],
    );
    if a.week_key() == b.week_key() {
        text::lemma_padded_injective(a.iso_year, b.iso_year, 4);
        text::lemma_padded_injective(a.iso_week, b.iso_week, 2);
    }
    if monday_of(a.day_number()) == monday_of(b.day_number()) {
        lemma_iso_week_unique(a.iso_year, a.iso_week, b.iso_year, b.iso_week, a.day_number());
    }
}

proof fn lemma_next_monday(day_number: int)
    ensures
        monday_of(day_number) != monday_of(day_number + 1) <==> weekday(day_number + 1) == 0,
{
}

/// From one day to the next the week key changes exactly when the next day is
/// a Monday.
pub proof fn law_week_starts_on_monday(today: Moment, tomorrow: Moment)
    requires
        today.valid(),
        tomorrow.valid(),
        tomorrow.day_number() == today.day_number() + 1,
    ensures
        today.week_key() != tomorrow.week_key() <==> weekday(tomorrow.day_number()) == 0,
{
    law_week_key(today, tomorrow);
    lemma_next_monday(today.day_number());
}

/// Periods nest: one minute lies in one hour, an hour in one day, a day in one
/// week and in one month.
pub proof fn law_periods_nest(a: Moment, b: Moment)
    requires
        a.valid(),
        b.valid(),
    ensures
        a.minute_key() == b.minute_key() ==> a.hour_key() == b.hour_key(),
        a.hour_key() == b.hour_key() ==> a.day_key() == b.day_key(),
        a.day_key() == b.day_key() ==> a.month_key() == b.month_key(),
        a.day_key() == b.day_key() ==> a.week_key() == b.week_key(),
{
    law_minute_key(a, b);
    law_hour_key(a, b);
    law_day_key(a, b);
    law_month_key(a, b);
    law_week_key(a, b);
}

proof fn lemma_years_add_up(a: int, b: int)
    requires
        a < b,
    ensures
        days_before_year(a) + days_in_year(a) <= days_before_year(b),
    decreases b - a,
{
    lemma_year_length(a);
    if a + 1 < b {
        lemma_years_add_up(a + 1, b);
    }
}

proof fn lemma_months_add_up(year: int, a: int, b: int)
    requires
        1 <= a < b <= 13,
    ensures
        0 <= days_before_month(year, a),
        days_before_month(year, a) + days_in_month(year, a) <= days_before_month(year, b),
    decreases b,
{
    reveal_with_fuel(days_before_month, 2);
    if a > 1 {
        lemma_months_add_up(year, 1, a);
    }
    if a + 1 < b {
        lemma_months_add_up(year, a, b - 1);
    }
}

proof fn lemma_day_within_year(year: int, month: int, day: int)
    requires
        is_calendar_day(year, month, day),
    ensures
        1 <= days_before_month(year, month) + day <= days_in_year(year),
{
    lemma_months_add_up(year, month, 13);
    assert(days_before_month(year, 13) == days_in_year(year)) by {
        reveal_with_fuel(days_before_month, 14);
    }
}

/// Days are numbered in the order of their dates, each date with a number of
/// its own.
pub proof fn law_day_numbers_follow_dates(a: Moment, b: Moment)
    requires
        a.valid(),
        b.valid(),
    ensures
        a.up_to(b) ==> a.day_number() <= b.day_number(),
        a.day_number() == b.day_number() <==> a.year == b.year && a.month == b.month && a.day
            == b.day,
{
    lemma_day_within_year(a.year, a.month, a.day);
    lemma_day_within_year(b.year, b.month, b.day);
    if a.year < b.year {
        lemma_years_add_up(a.year, b.year);
    } else if b.year < a.year {
        lemma_years_add_up(b.year, a.year);
    } else if a.month < b.month {
        lemma_months_add_up(a.year, a.month, b.month);
    } else if b.month < a.month {
        lemma_months_add_up(a.year, b.month, a.month);
    }
}

/// Local time moves forward: under one offset from UTC, what a clock shows later
/// does not come before what it shows earlier.
pub proof fn law_local_time_moves_forward(a: Moment, b: Moment, earlier: int, later: int)
    requires
        a.is_at(earlier),
        b.is_at(later),
        earlier <= later,
    ensures
        a.up_to(b),
{
    law_day_numbers_follow_dates(a, b);
    law_day_numbers_follow_dates(b, a);
    lemma_seconds_order(earlier, later);
}

proof fn lemma_seconds_order(earlier: int, later: int)
    requires
        earlier <= later,
    ensures
        earlier / 86400 <= later / 86400,
        earlier / 86400 == later / 86400 ==> earlier % 86400 / 3600 <= later % 86400 / 3600,
        earlier / 86400 == later / 86400 && earlier % 86400 / 3600 == later % 86400 / 3600
            ==> earlier % 3600 / 60 <= later % 3600 / 60,
{
    lemma_div_is_ordered(earlier, later, 86400);
    lemma_fundamental_div_mod(earlier, 86400);
    lemma_fundamental_div_mod(later, 86400);
    if earlier / 86400 == later / 86400 {
        let a = earlier % 86400;
        let b = later % 86400;
        assert(a <= b);
        lemma_div_is_ordered(a, b, 3600);
        lemma_fundamental_div_mod(a, 3600);
        lemma_fundamental_div_mod(b, 3600);
        lemma_mod_mod(earlier, 3600, 24);
        lemma_mod_mod(later, 3600, 24);
        if a / 3600 == b / 3600 {
            assert(a % 3600 <= b % 3600);
            lemma_div_is_ordered(a % 3600, b % 3600, 60);
        }
    }
}

proof fn lemma_mondays_follow_days(a: int, b: int)
    requires
        a <= b,
    ensures
        monday_of(a) <= monday_of(b),
{
}

/// Periods are not interrupted: a time between two of one period lies in that
/// period.
pub proof fn law_periods_are_unbroken(start: Moment, between: Moment, end: Moment)
    requires
        start.valid(),
        between.valid(),
        end.valid(),
        start.up_to(between),
        between.up_to(end),
    ensures
        start.minute_key() == end.minute_key() ==> between.minute_key() == end.minute_key(),
        start.hour_key() == end.hour_key() ==> between.hour_key() == end.hour_key(),
        start.day_key() == end.day_key() ==> between.day_key() == end.day_key(),
        start.week_key() == end.week_key() ==> between.week_key() == end.week_key(),
        start.month_key() == end.month_key() ==> between.month_key() == end.month_key(),
{
    law_minute_key(start, end);
    law_minute_key(between, end);
    law_hour_key(start, end);
    law_hour_key(between, end);
    law_day_key(start, end);
    law_day_key(between, end);
    law_week_key(start, end);
    law_week_key(between, end);
    law_month_key(start, end);
    law_month_key(between, end);
    law_day_numbers_follow_dates(start, between);
    law_day_numbers_follow_dates(between, end);
    lemma_mondays_follow_days(start.day_number(), between.day_number());
    lemma_mondays_follow_days(between.day_number(), end.day_number());
}

} // verus!
