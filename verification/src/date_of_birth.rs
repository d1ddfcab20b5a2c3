//! Dates of birth: days of the Gregorian calendar, written as `YYYY-MM-DD`.

use crate::random::{random_below, random_between};
use crate::text::{
    chars_of, digit_char, digit_value, is_digit, lemma_digit_round_trip, push_digit, read_digit,
};
use vstd::prelude::*;

verus! {

/// The last year that four digits can write.
pub const MAX_YEAR: u16 = 9999;

/// How many years before the current one a generated date of birth may lie.
pub const YEARS_BACK: u16 = 120;

/// A year is a leap year if four divides it, unless a hundred divides it and four hundred
/// does not.
pub open spec fn is_leap_year(year: int) -> bool {
    year % 4 == 0 && (year % 100 != 0 || year % 400 == 0)
}

/// The number of days of a month, which for February depends on the year.
pub open spec fn days_in_month(year: int, month: int) -> int {
    if month == 2 {
        if is_leap_year(year) {
            29
        } else {
            28
        }
    } else if month == 4 || month == 6 || month == 9 || month == 11 {
        30
    } else {
        31
    }
}

/// A year, a month and a day, as numbers.
pub struct CalendarDate {
    pub year: int,
    pub month: int,
    pub day: int,
}

impl CalendarDate {
    /// The three numbers name a day that exists, in a year that four digits can write.
    pub open spec fn is_valid(self) -> bool {
        &&& 0 <= self.year <= MAX_YEAR
        &&& 1 <= self.month <= 12
        &&& 1 <= self.day <= days_in_month(self.year, self.month)
    }

    /// Whether `self` comes before `other`.
    pub open spec fn is_before(self, other: CalendarDate) -> bool {
        self.year < other.year || (self.year == other.year && (self.month < other.month || (
        self.month == other.month && self.day < other.day)))
    }
}

/// Why a text is not a date.
#[derive(Clone, Copy, Debug, PartialEq, Eq, Structural)]
pub enum DateParseError {
    /// The text is not four digits, a hyphen, two digits, a hyphen and two digits.
    Malformed,
    /// The text has the right shape, but the calendar has no such day.
    NoSuchDay,
}

/// The two decimal digits of a number below a hundred.
pub open spec fn two_digits(n: int) -> Seq<char> {
    seq![digit_char(n / 10), digit_char(n % 10)]
}

/// The four decimal digits of a number below ten thousand.
pub open spec fn four_digits(n: int) -> Seq<char> {
    seq![
        digit_char(n / 10 / 10 / 10 % 10),
        digit_char(n / 10 / 10 % 10),
        digit_char(n / 10 % 10),
        digit_char(n % 10),
    ]
}

/// A date written as `YYYY-MM-DD`.
pub open spec fn iso_text(date: CalendarDate) -> Seq<char> {
    four_digits(date.year) + seq!['-'] + two_digits(date.month) + seq!['-'] + two_digits(
        date.day,
    )
}

/// The text is four digits, a hyphen, two digits, a hyphen and two digits.
pub open spec fn is_iso_shape(s: Seq<char>) -> bool {
    &&& s.len() == 10
    &&& is_digit(s[0]) && is_digit(s[1]) && is_digit(s[2]) && is_digit(s[3])
    &&& s[4] == '-'
    &&& is_digit(s[5]) && is_digit(s[6])
    &&& s[7] == '-'
    &&& is_digit(s[8]) && is_digit(s[9])
}

/// The numbers that a text of the shape `YYYY-MM-DD` writes.
pub open spec fn iso_fields(s: Seq<char>) -> CalendarDate {
    CalendarDate {
        year: 1000 * digit_value(s[0]) + 100 * digit_value(s[1]) + 10 * digit_value(s[2])
            + digit_value(s[3]),
        month: 10 * digit_value(s[5]) + digit_value(s[6]),
        day: 10 * digit_value(s[8]) + digit_value(s[9]),
    }
}

/// What a text means as a date.
pub open spec fn parse_iso(s: Seq<char>) -> Result<CalendarDate, DateParseError> {
    if !is_iso_shape(s) {
        Err(DateParseError::Malformed)
    } else if !iso_fields(s).is_valid() {
        Err(DateParseError::NoSuchDay)
    } else {
        Ok(iso_fields(s))
    }
}

/// A date of birth. Every value is a day that exists.
#[derive(Clone, Copy, Debug, PartialEq, Eq, PartialOrd, Ord, Hash, Structural)]
pub struct DateOfBirth {
    year: u16,
    month: u8,
    day: u8,
}

impl View for DateOfBirth {
    type V = CalendarDate;

    closed spec fn view(&self) -> CalendarDate {
        CalendarDate { year: self.year as int, month: self.month as int, day: self.day as int }
    }
}

pub fn is_leap(year: u16) -> (r: bool)
    ensures
        r == is_leap_year(year as int),
{
    year % 4 == 0 && (year % 100 != 0 || year % 400 == 0)
}

/// The number of the last day of a month.
pub fn last_day_of_month(year: u16, month: u8) -> (r: u8)
    ensures
        r == days_in_month(year as int, month as int),
{
    if month == 2 {
        if is_leap(year) {
            29
        } else {
            28
        }
    } else if month == 4 || month == 6 || month == 9 || month == 11 {
        30
    } else {
        31
    }
}

impl DateOfBirth {
    #[verifier::type_invariant]
    spec fn exists_in_calendar(self) -> bool {
        self@.is_valid()
    }

    /// The date with the given year, month and day, if the calendar has such a day.
    pub fn new(year: u16, month: u8, day: u8) -> (r: Option<Self>)
        ensures
            r is Some <==> (CalendarDate {
                year: year as int,
                month: month as int,
                day: day as int,
            }).is_valid(),
            r matches Some(date) ==> date@ == (CalendarDate {
                year: year as int,
                month: month as int,
                day: day as int,
            }),
    {
        if year <= MAX_YEAR && 1 <= month && month <= 12 && 1 <= day && day <= last_day_of_month(
            year,
            month,
        ) {
            Some(DateOfBirth { year, month, day })
        } else {
            None
        }
    }

    pub fn year(&self) -> (r: u16)
        ensures
            r == self@.year,
            self@.is_valid(),
    {
        proof {
            use_type_invariant(self);
        }
        self.year
    }

    pub fn month(&self) -> (r: u8)
        ensures
            r == self@.month,
            self@.is_valid(),
    {
        proof {
            use_type_invariant(self);
        }
        self.month
    }

    pub fn day(&self) -> (r: u8)
        ensures
            r == self@.day,
            self@.is_valid(),
    {
        proof {
            use_type_invariant(self);
        }
        self.day
    }

    /// Whether this date comes before `other`.
    pub fn is_before(&self, other: &DateOfBirth) -> (r: bool)
        ensures
            r == self@.is_before(other@),
    {
        self.year < other.year || (self.year == other.year && (self.month < other.month || (
        self.month == other.month && self.day < other.day)))
    }

    /// Writes the date as `YYYY-MM-DD`.
    pub fn to_string(&self) -> (r: String)
        ensures
            r@ == iso_text(self@),
    {
        proof {
            use_type_invariant(self);
        }
        let mut out = String::new();
        push_digit(&mut out, (self.year / 10 / 10 / 10 % 10) as u8);
        push_digit(&mut out, (self.year / 10 / 10 % 10) as u8);
        push_digit(&mut out, (self.year / 10 % 10) as u8);
        push_digit(&mut out, (self.year % 10) as u8);
        out.push('-');
        push_digit(&mut out, self.month / 10);
        push_digit(&mut out, self.month % 10);
        out.push('-');
        push_digit(&mut out, self.day / 10);
        push_digit(&mut out, self.day % 10);
        assert(out@ =~= iso_text(self@));
        out
    }

    /// Reads a date written as `YYYY-MM-DD`.
    pub fn from_str(s: &str) -> (r: Result<Self, DateParseError>)
        ensures
            match r {
                Ok(date) => parse_iso(s@) == Ok::<CalendarDate, DateParseError>(date@),
                Err(e) => parse_iso(s@) == Err::<CalendarDate, DateParseError>(e),
            },
    {
        let chars = chars_of(s);
        if chars.len() != 10 || chars[4] != '-' || chars[7] != '-' {
            return Err(DateParseError::Malformed);
        }
        let digits = (
            read_digit(chars[0]),
            read_digit(chars[1]),
            read_digit(chars[2]),
            read_digit(chars[3]),
            read_digit(chars[5]),
            read_digit(chars[6]),
            read_digit(chars[8]),
            read_digit(chars[9]),
        );
        match digits {
            (Some(y0), Some(y1), Some(y2), Some(y3), Some(m0), Some(m1), Some(d0), Some(d1)) => {
                proof {
                    lemma_digit_round_trip(0, chars[0]);
                    lemma_digit_round_trip(0, chars[1]);
                    lemma_digit_round_trip(0, chars[2]);
                    lemma_digit_round_trip(0, chars[3]);
                    lemma_digit_round_trip(0, chars[5]);
                    lemma_digit_round_trip(0, chars[6]);
                    lemma_digit_round_trip(0, chars[8]);
                    lemma_digit_round_trip(0, chars[9]);
                }
                let year: u16 = 1000 * (y0 as u16) + 100 * (y1 as u16) + 10 * (y2 as u16) + (
                y3 as u16);
                let month: u8 = 10 * m0 + m1;
                let day: u8 = 10 * d0 + d1;
                match DateOfBirth::new(year, month, day) {
                    Some(date) => Ok(date),
                    None => Err(DateParseError::NoSuchDay),
                }
            },
            _ => Err(DateParseError::Malformed),
        }
    }
}

impl DateParseError {
    /// The error in words.
    pub fn message(&self) -> (r: String)
        ensures
            r@ == match self {
                DateParseError::Malformed => "the date is not written as YYYY-MM-DD"@,
                DateParseError::NoSuchDay => "the calendar has no such day"@,
            },
    {
        match self {
            DateParseError::Malformed => "the date is not written as YYYY-MM-DD".to_owned(),
            DateParseError::NoSuchDay => "the calendar has no such day".to_owned(),
        }
    }
}

/// Reads the clock with `time::OffsetDateTime::now_utc` and gives the year of the current date
/// in UTC, as `time::OffsetDateTime::year` returns it. Nothing is claimed of the year.
#[verifier::external_body]
pub(crate) fn current_year() -> i32 {
    time::OffsetDateTime::now_utc().year()
}

/// Whether dates of birth can be drawn when the current year is `current_year`: the earliest
/// of them lies [`YEARS_BACK`] years back, and four digits must write every year.
pub open spec fn can_draw_in(current_year: int) -> bool {
    YEARS_BACK <= current_year <= MAX_YEAR
}

/// Draws a date of birth between the first of January [`YEARS_BACK`] years before
/// `current_year` and the last of December of `current_year`: first a year of that span, then
/// one of the twelve months, then one of the days that this month has in this year.
pub fn gen_date_of_birth_in(current_year: i32) -> (r: Option<DateOfBirth>)
    ensures
        r is Some <==> can_draw_in(current_year as int),
        r matches Some(date) ==> date@.is_valid() && current_year - YEARS_BACK <= date@.year
            <= current_year,
{
    if current_year < YEARS_BACK as i32 || current_year > MAX_YEAR as i32 {
        return None;
    }
    let latest: u16 = current_year as u16;
    let year = random_between(latest - YEARS_BACK, latest);
    let month = random_between(1, 12) as u8;
    let day = random_between(1, last_day_of_month(year, month) as u16) as u8;
    Some(DateOfBirth { year, month, day })
}

/// Draws a date of birth within the last [`YEARS_BACK`] years, counted from the year that the
/// clock shows. There is none to draw if the clock shows a year outside of
/// [`can_draw_in`].
pub fn gen_date_of_birth() -> (r: Option<DateOfBirth>)
    ensures
        r matches Some(date) ==> date@.is_valid(),
{
    gen_date_of_birth_in(current_year())
}

/// A valid date is never the twenty-ninth of February of a common year, and its day is never
/// past the end of its month.
pub proof fn lemma_valid_date_respects_month_length(date: CalendarDate)
    requires
        date.is_valid(),
    ensures
        date.day <= days_in_month(date.year, date.month),
        28 <= days_in_month(date.year, date.month) <= 31,
        date.month == 2 && date.day == 29 ==> is_leap_year(date.year),
        date.month == 2 ==> date.day <= 29,
{
}

/// A number below ten thousand is the sum of its four decimal digits, each times its power of
/// ten.
proof fn lemma_digits_make_number(n: int)
    requires
        0 <= n <= 9999,
    ensures
        1000 * (n / 10 / 10 / 10 % 10) + 100 * (n / 10 / 10 % 10) + 10 * (n / 10 % 10) + n % 10
            == n,
        n <= 99 ==> n / 10 < 10,
{
    let tens = n / 10;
    let hundreds = tens / 10;
    let thousands = hundreds / 10;
    assert(n == 10 * tens + n % 10);
    assert(tens == 10 * hundreds + tens % 10);
    assert(hundreds == 10 * thousands + hundreds % 10);
    assert(thousands < 10);
    assert(thousands % 10 == thousands);
}

/// A digit that is appended to a number is the last digit of the new number, and the rest of
/// the new number is the old one.
proof fn lemma_appended_digit(rest: int, digit: int)
    requires
        0 <= rest,
        0 <= digit < 10,
    ensures
        (10 * rest + digit) / 10 == rest,
        (10 * rest + digit) % 10 == digit,
{
}

/// Reading the text of a valid date gives the date back.
pub proof fn lemma_parse_inverts_write(date: CalendarDate)
    requires
        date.is_valid(),
    ensures
        parse_iso(iso_text(date)) == Ok::<CalendarDate, DateParseError>(date),
{
    let s = iso_text(date);
    let (y3, y2, y1, y0) = (
        date.year / 10 / 10 / 10 % 10,
        date.year / 10 / 10 % 10,
        date.year / 10 % 10,
        date.year % 10,
    );
    let (m1, m0) = (date.month / 10, date.month % 10);
    let (d1, d0) = (date.day / 10, date.day % 10);
    lemma_digits_make_number(date.year);
    lemma_digits_make_number(date.month);
    lemma_digits_make_number(date.day);
    lemma_digit_round_trip(y3, '0');
    lemma_digit_round_trip(y2, '0');
    lemma_digit_round_trip(y1, '0');
    lemma_digit_round_trip(y0, '0');
    lemma_digit_round_trip(m1, '0');
    lemma_digit_round_trip(m0, '0');
    lemma_digit_round_trip(d1, '0');
    lemma_digit_round_trip(d0, '0');
    assert(s =~= seq![
        digit_char(y3),
        digit_char(y2),
        digit_char(y1),
        digit_char(y0),
        '-',
        digit_char(m1),
        digit_char(m0),
        '-',
        digit_char(d1),
        digit_char(d0),
    ]);
    assert(is_iso_shape(s));
    assert(iso_fields(s).year == 1000 * y3 + 100 * y2 + 10 * y1 + y0);
    assert(iso_fields(s).month == 10 * m1 + m0);
    assert(iso_fields(s).day == 10 * d1 + d0);
}

/// Writing the date that a text was read as gives the text back: a date has one text only.
pub proof fn lemma_write_inverts_parse(s: Seq<char>)
    requires
        parse_iso(s) is Ok,
    ensures
        iso_text(parse_iso(s)->Ok_0) == s,
{
    let date = iso_fields(s);
    let (y3, y2, y1, y0) = (
        digit_value(s[0]),
        digit_value(s[1]),
        digit_value(s[2]),
        digit_value(s[3]),
    );
    lemma_digit_round_trip(0, s[0]);
    lemma_digit_round_trip(0, s[1]);
    lemma_digit_round_trip(0, s[2]);
    lemma_digit_round_trip(0, s[3]);
    lemma_digit_round_trip(0, s[5]);
    lemma_digit_round_trip(0, s[6]);
    lemma_digit_round_trip(0, s[8]);
    lemma_digit_round_trip(0, s[9]);
    assert(date.year == 10 * (10 * (10 * y3 + y2) + y1) + y0);
    lemma_appended_digit(10 * (10 * y3 + y2) + y1, y0);
    lemma_appended_digit(10 * y3 + y2, y1);
    lemma_appended_digit(y3, y2);
    assert(date.year / 10 / 10 / 10 == y3);
    lemma_appended_digit(digit_value(s[5]), digit_value(s[6]));
    lemma_appended_digit(digit_value(s[8]), digit_value(s[9]));
    assert(iso_text(date) =~= s);
}

/// The first year of which `time` knows the dates.
pub const TIME_MIN_YEAR: i32 = -9999;

/// The last year of which `time` knows the dates.
pub const TIME_MAX_YEAR: i32 = 9999;

/// The Julian day number of the first date of birth that there is, the first of January of the
/// year 0.
pub const FIRST_JULIAN_DAY: i32 = 1_721_060;

/// The Julian day number of the last date of birth that there is, the last of December of
/// [`MAX_YEAR`].
pub const LAST_JULIAN_DAY: i32 = 5_373_484;

impl CalendarDate {
    /// The three numbers name a day that exists, in a year of which `time` knows the dates.
    pub open spec fn is_date_of_time(self) -> bool {
        &&& TIME_MIN_YEAR <= self.year <= TIME_MAX_YEAR
        &&& 1 <= self.month <= 12
        &&& 1 <= self.day <= days_in_month(self.year, self.month)
    }

    /// The first date of birth that there is.
    pub open spec fn first() -> CalendarDate {
        CalendarDate { year: 0, month: 1, day: 1 }
    }

    /// The last date of birth that there is.
    pub open spec fn last() -> CalendarDate {
        CalendarDate { year: MAX_YEAR as int, month: 12, day: 31 }
    }
}

/// The number of days of a year that lie before the first of a month.
pub open spec fn days_before_month(year: int, month: int) -> int {
    let in_common_year: int = if month <= 1 {
        0
    } else if month == 2 {
        31
    } else if month == 3 {
        59
    } else if month == 4 {
        90
    } else if month == 5 {
        120
    } else if month == 6 {
        151
    } else if month == 7 {
        181
    } else if month == 8 {
        212
    } else if month == 9 {
        243
    } else if month == 10 {
        273
    } else if month == 11 {
        304
    } else {
        334
    };
    if is_leap_year(year) && month > 2 {
        in_common_year + 1
    } else {
        in_common_year
    }
}

/// The number of days that lie before the first of January of a year, counted from the first
/// of January of the year -999999.
pub open spec fn days_before_year(year: int) -> int {
    let shifted = year + 999_999;
    let century = shifted / 100;
    1461 * shifted / 4 - century + century / 4
}

/// The Julian day number of a date: the count of days from the day with the number zero, the
/// 24th of November of the year -4713.
pub open spec fn julian_day(date: CalendarDate) -> int {
    days_before_year(date.year) + days_before_month(date.year, date.month) + date.day
        - 363_521_075
}

/// Makes the `time::Date` of a year, a month and a day with `time::Date::from_calendar_date`
/// and asks it for its Julian day number with `time::Date::to_julian_day`. The date must
/// exist, or there is no `time::Date` to ask. The first of the two functions counts the days
/// of the year up to the date, [`days_before_month`] and the day; the second adds those before
/// the year, [`days_before_year`], and moves the count to the Julian day zero.
#[verifier::external_body]
fn julian_day_number(year: u16, month: u8, day: u8) -> (r: i32)
    requires
        (CalendarDate { year: year as int, month: month as int, day: day as int }).is_valid(),
    ensures
        r == julian_day(CalendarDate { year: year as int, month: month as int, day: day as int }),
{
    let month = time::Month::try_from(month).unwrap();
    time::Date::from_calendar_date(year as i32, month, day).unwrap().to_julian_day()
}

/// Asks `time::Date::from_julian_day` for the date with a Julian day number, and gives its
/// year, month and day. There is such a date for the numbers of the dates that `time` knows,
/// from the first of January of [`TIME_MIN_YEAR`] to the last of December of
/// [`TIME_MAX_YEAR`], and for no other number. It is a date that exists, and the one whose
/// Julian day number was asked for.
#[verifier::external_body]
fn ymd_from_julian_day(julian_day_number: i32) -> (r: Option<(i32, u8, u8)>)
    ensures
        r is Some <==> julian_day(
            CalendarDate { year: TIME_MIN_YEAR as int, month: 1, day: 1 },
        ) <= julian_day_number <= julian_day(
            CalendarDate { year: TIME_MAX_YEAR as int, month: 12, day: 31 },
        ),
        r matches Some(ymd) ==> {
            let date = CalendarDate { year: ymd.0 as int, month: ymd.1 as int, day: ymd.2 as int };
            date.is_date_of_time() && julian_day(date) == julian_day_number
        },
{
    time::Date::from_julian_day(julian_day_number).ok().map(
        |date| (date.year(), u8::from(date.month()), date.day()),
    )
}

/// A year is 365 days long, and a leap year one day longer.
pub proof fn lemma_year_length(year: int)
    requires
        -999_999 <= year,
    ensures
        days_before_year(year + 1) == days_before_year(year) + 365 + if is_leap_year(year) {
            1int
        } else {
            0int
        },
{
    let shifted = year + 999_999;
    assert(1461 * shifted / 4 == 365 * shifted + shifted / 4);
    assert(1461 * (shifted + 1) / 4 == 365 * (shifted + 1) + (shifted + 1) / 4);
    assert((shifted + 1) % 4 == 0 <==> year % 4 == 0);
    assert((shifted + 1) % 100 == 0 <==> year % 100 == 0);
    assert((shifted + 1) % 400 == 0 <==> year % 400 == 0);
    assert((shifted + 1) / 4 == shifted / 4 + if year % 4 == 0 {
        1int
    } else {
        0int
    });
    assert((shifted + 1) / 100 == shifted / 100 + if year % 100 == 0 {
        1int
    } else {
        0int
    });
    assert((shifted + 1) / 100 / 4 == (shifted + 1) / 400);
    assert(shifted / 100 / 4 == shifted / 400);
    assert((shifted + 1) / 400 == shifted / 400 + if year % 400 == 0 {
        1int
    } else {
        0int
    });
}

/// The later a year, the more days lie before it: at least 365 for each year between.
pub proof fn lemma_days_before_year_rise(earlier: int, later: int)
    requires
        -999_999 <= earlier <= later,
    ensures
        days_before_year(later) >= days_before_year(earlier) + 365 * (later - earlier),
    decreases later - earlier,
{
    if earlier < later {
        lemma_days_before_year_rise(earlier, later - 1);
        lemma_year_length(later - 1);
    }
}

/// The days of a year that lie before a month and the days of the month make no more than
/// the days of the year.
pub proof fn lemma_day_lies_in_its_year(date: CalendarDate)
    requires
        1 <= date.month <= 12,
        1 <= date.day <= days_in_month(date.year, date.month),
    ensures
        1 <= days_before_month(date.year, date.month) + date.day <= 365 + if is_leap_year(
            date.year,
        ) {
            1int
        } else {
            0int
        },
        date.month < 12 ==> days_before_month(date.year, date.month) + days_in_month(
            date.year,
            date.month,
        ) == days_before_month(date.year, date.month + 1),
{
}

/// A date that comes before another has the smaller Julian day number.
pub proof fn lemma_julian_day_rises(earlier: CalendarDate, later: CalendarDate)
    requires
        earlier.is_date_of_time(),
        later.is_date_of_time(),
        earlier.is_before(later),
    ensures
        julian_day(earlier) < julian_day(later),
{
    lemma_day_lies_in_its_year(earlier);
    lemma_day_lies_in_its_year(later);
    if earlier.year < later.year {
        lemma_year_length(earlier.year);
        lemma_days_before_year_rise(earlier.year + 1, later.year);
    } else if earlier.month < later.month {
        lemma_months_rise(earlier.year, earlier.month, later.month);
    }
}

/// The later a month, the more days of the year lie before it: at least all the days of each
/// month between.
pub proof fn lemma_months_rise(year: int, earlier: int, later: int)
    requires
        1 <= earlier < later <= 12,
    ensures
        days_before_month(year, later) >= days_before_month(year, earlier) + days_in_month(
            year,
            earlier,
        ),
{
}

/// Dates with the same Julian day number are the same date, and the dates of birth are the
/// dates with the numbers from [`FIRST_JULIAN_DAY`] to [`LAST_JULIAN_DAY`].
pub proof fn lemma_julian_day_names_one_date(a: CalendarDate, b: CalendarDate)
    requires
        a.is_date_of_time(),
        b.is_date_of_time(),
    ensures
        julian_day(a) == julian_day(b) ==> a == b,
        a.is_before(b) <==> julian_day(a) < julian_day(b),
        a.is_valid() <==> FIRST_JULIAN_DAY <= julian_day(a) <= LAST_JULIAN_DAY,
        julian_day(CalendarDate::first()) == FIRST_JULIAN_DAY,
        julian_day(CalendarDate::last()) == LAST_JULIAN_DAY,
{
    if a.is_before(b) {
        lemma_julian_day_rises(a, b);
    }
    if b.is_before(a) {
        lemma_julian_day_rises(b, a);
    }
    lemma_julian_day_of_ends();
    if a.is_before(CalendarDate::first()) {
        lemma_julian_day_rises(a, CalendarDate::first());
    }
    if CalendarDate::first().is_before(a) {
        lemma_julian_day_rises(CalendarDate::first(), a);
    }
    if a.is_before(CalendarDate::last()) {
        lemma_julian_day_rises(a, CalendarDate::last());
    }
    if CalendarDate::last().is_before(a) {
        lemma_julian_day_rises(CalendarDate::last(), a);
    }
}

/// The Julian day numbers of the first and of the last date of birth.
pub proof fn lemma_julian_day_of_ends()
    ensures
        julian_day(CalendarDate::first()) == FIRST_JULIAN_DAY,
        julian_day(CalendarDate::last()) == LAST_JULIAN_DAY,
        julian_day(CalendarDate { year: 2000, month: 1, day: 1 }) == 2_451_545,
{
}

impl DateOfBirth {
    /// The Julian day number of the date.
    pub fn to_julian_day(&self) -> (r: i32)
        ensures
            r == julian_day(self@),
            FIRST_JULIAN_DAY <= r <= LAST_JULIAN_DAY,
            self@.is_valid(),
    {
        proof {
            use_type_invariant(self);
            lemma_julian_day_names_one_date(self@, self@);
        }
        julian_day_number(self.year, self.month, self.day)
    }

    /// The date of birth with the given Julian day number. There is one for each number from
    /// [`FIRST_JULIAN_DAY`] to [`LAST_JULIAN_DAY`].
    pub fn from_julian_day(julian_day_number: i32) -> (r: Option<Self>)
        ensures
            r is Some <==> FIRST_JULIAN_DAY <= julian_day_number <= LAST_JULIAN_DAY,
            r matches Some(date) ==> date@.is_valid() && julian_day(date@) == julian_day_number,
    {
        proof {
            let first_of_time = CalendarDate { year: TIME_MIN_YEAR as int, month: 1, day: 1 };
            let last_of_time = CalendarDate { year: TIME_MAX_YEAR as int, month: 12, day: 31 };
            lemma_julian_day_names_one_date(first_of_time, last_of_time);
            lemma_julian_day_names_one_date(last_of_time, first_of_time);
        }
        match ymd_from_julian_day(julian_day_number) {
            Some((year, month, day)) => {
                proof {
                    let date = CalendarDate {
                        year: year as int,
                        month: month as int,
                        day: day as int,
                    };
                    lemma_julian_day_names_one_date(date, date);
                }
                if 0 <= year && year <= MAX_YEAR as i32 {
                    DateOfBirth::new(year as u16, month, day)
                } else {
                    None
                }
            },
            None => None,
        }
    }

    /// Whether this is the last date that there is, the last of December of [`MAX_YEAR`].
    pub fn is_last(&self) -> (r: bool)
        ensures
            r == (self@ == CalendarDate::last()),
    {
        self.year == MAX_YEAR && self.month == 12 && self.day == 31
    }
}

/// A span of days from which dates of birth are drawn, each day with the same chance.
pub struct UniformDateOfBirth {
    start: i32,
    end: i32,
}

/// A span of Julian day numbers: from `start`, up to `end` but without it.
pub struct DaySpan {
    pub start: int,
    pub end: int,
}

impl DaySpan {
    /// The span holds a day, and all its days are dates of birth.
    pub open spec fn is_valid(self) -> bool {
        FIRST_JULIAN_DAY <= self.start < self.end <= LAST_JULIAN_DAY + 1
    }
}

impl View for UniformDateOfBirth {
    type V = DaySpan;

    closed spec fn view(&self) -> DaySpan {
        DaySpan { start: self.start as int, end: self.end as int }
    }
}

/// The Julian day number after that of the last day to draw. It is the number after that of
/// `high`, but for the last date that there is: no date comes after that one, and it is left
/// out of the span.
pub open spec fn end_after(high: CalendarDate) -> int {
    if high == CalendarDate::last() {
        julian_day(high)
    } else {
        julian_day(high) + 1
    }
}

impl UniformDateOfBirth {
    #[verifier::type_invariant]
    spec fn holds_dates(self) -> bool {
        self@.is_valid()
    }

    /// The span of the days from `low` up to `high`, without `high`. There is none unless
    /// `low` comes before `high`.
    pub fn new(low: DateOfBirth, high: DateOfBirth) -> (r: Option<Self>)
        ensures
            r is Some <==> low@.is_before(high@),
            r matches Some(span) ==> span@.is_valid() && span@ == (DaySpan {
                start: julian_day(low@),
                end: julian_day(high@),
            }),
    {
        proof {
            use_type_invariant(low);
            use_type_invariant(high);
            lemma_julian_day_names_one_date(low@, high@);
            lemma_julian_day_names_one_date(high@, low@);
        }
        let start = low.to_julian_day();
        let end = high.to_julian_day();
        if start < end {
            Some(UniformDateOfBirth { start, end })
        } else {
            None
        }
    }

    /// The span of the days from `low` up to `high`, with `high`; without it, where `high` is
    /// the last date that there is. There is none unless `low` comes no later than `high`, and
    /// none that begins with the last date.
    pub fn new_inclusive(low: DateOfBirth, high: DateOfBirth) -> (r: Option<Self>)
        ensures
            r is Some <==> !high@.is_before(low@) && low@ != CalendarDate::last(),
            r matches Some(span) ==> span@.is_valid() && span@ == (DaySpan {
                start: julian_day(low@),
                end: end_after(high@),
            }),
    {
        proof {
            use_type_invariant(low);
            use_type_invariant(high);
            lemma_julian_day_names_one_date(low@, high@);
            lemma_julian_day_names_one_date(high@, low@);
            lemma_julian_day_names_one_date(low@, CalendarDate::last());
        }
        let start = low.to_julian_day();
        let last = high.to_julian_day();
        let end = if high.is_last() {
            last
        } else {
            last + 1
        };
        if start < end {
            Some(UniformDateOfBirth { start, end })
        } else {
            None
        }
    }

    /// The Julian day number of the first day of the span.
    pub fn start(&self) -> (r: i32)
        ensures
            r == self@.start,
            self@.is_valid(),
    {
        proof {
            use_type_invariant(self);
        }
        self.start
    }

    /// The Julian day number after that of the last day of the span.
    pub fn end(&self) -> (r: i32)
        ensures
            r == self@.end,
            self@.is_valid(),
    {
        proof {
            use_type_invariant(self);
        }
        self.end
    }

    /// Draws a day of the span and gives its date.
    pub fn sample(&self) -> (r: DateOfBirth)
        ensures
            self@.start <= julian_day(r@) < self@.end,
            r@.is_valid(),
    {
        proof {
            use_type_invariant(self);
        }
        let width: u64 = (self.end - self.start) as u64;
        let drawn: i32 = self.start + random_below(width) as i32;
        let date = DateOfBirth::from_julian_day(drawn).unwrap();
        proof {
            use_type_invariant(date);
        }
        date
    }
}

} // verus!
