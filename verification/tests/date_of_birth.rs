use genpi::date_of_birth::{
    gen_date_of_birth, gen_date_of_birth_in, is_leap, last_day_of_month, DateOfBirth,
    DateParseError, UniformDateOfBirth, FIRST_JULIAN_DAY, LAST_JULIAN_DAY,
};
use std::collections::HashSet;

#[test]
fn test_from_date() {
    let date = time::Date::from_calendar_date(2020, time::Month::January, 2).unwrap();
    let dob = DateOfBirth::new(date.year() as u16, u8::from(date.month()), date.day()).unwrap();
    let s = serde_json::to_string(&dob.to_string()).unwrap();
    assert_eq!(s, r#""2020-01-02""#);
}

#[test]
fn test_from_str() {
    let dob: DateOfBirth = DateOfBirth::from_str("2020-01-02").unwrap();
    let s = serde_json::to_string(&dob.to_string()).unwrap();
    assert_eq!(s, r#""2020-01-02""#);
}

#[test]
fn test_gen_range() {
    let low = DateOfBirth::from_str("2020-01-01").unwrap();
    let high = DateOfBirth::from_str("2020-01-02").unwrap();
    let gen = UniformDateOfBirth::new(low, high).unwrap().sample();
    assert_eq!(gen, low);

    let mut set = HashSet::new();
    let span = UniformDateOfBirth::new_inclusive(low, high).unwrap();
    for _ in 0..100 {
        let gen = span.sample();
        set.insert(gen);
    }
    assert_eq!(set.len(), 2);
    assert!(set.contains(&low));
    assert!(set.contains(&high));
}

#[test]
fn spans_need_a_day() {
    let low = DateOfBirth::from_str("2020-01-01").unwrap();
    let high = DateOfBirth::from_str("2020-01-02").unwrap();
    assert!(UniformDateOfBirth::new(low, low).is_none());
    assert!(UniformDateOfBirth::new(high, low).is_none());
    assert!(UniformDateOfBirth::new_inclusive(high, low).is_none());
    let one_day = UniformDateOfBirth::new_inclusive(low, low).unwrap();
    for _ in 0..20 {
        assert_eq!(one_day.sample(), low);
    }
    assert_eq!(one_day.start(), low.to_julian_day());
    assert_eq!(one_day.end(), low.to_julian_day() + 1);
    let two_days = UniformDateOfBirth::new_inclusive(low, high).unwrap();
    assert_eq!(two_days.start(), 2_458_850);
    assert_eq!(two_days.end(), 2_458_852);
    let first_day = UniformDateOfBirth::new(low, high).unwrap();
    assert_eq!((first_day.start(), first_day.end()), (2_458_850, 2_458_851));
}

#[test]
fn spans_of_years_give_dates_inside_them() {
    let low = DateOfBirth::new(1904, 2, 28).unwrap();
    let high = DateOfBirth::new(2024, 3, 1).unwrap();
    let span = UniformDateOfBirth::new(low, high).unwrap();
    let mut years = HashSet::new();
    for _ in 0..5000 {
        let date = span.sample();
        assert!(low <= date && date < high);
        assert!(!date.is_before(&low) && date.is_before(&high));
        years.insert(date.year());
    }
    assert_eq!(years.len(), 121);
}

#[test]
fn the_last_date_has_no_day_after_it() {
    let last = DateOfBirth::new(9999, 12, 31).unwrap();
    let eve = DateOfBirth::new(9999, 12, 30).unwrap();
    assert!(last.is_last());
    assert!(!eve.is_last());
    assert!(UniformDateOfBirth::new_inclusive(last, last).is_none());
    assert!(UniformDateOfBirth::new_inclusive(last, eve).is_none());
    let span = UniformDateOfBirth::new_inclusive(eve, last).unwrap();
    for _ in 0..20 {
        assert_eq!(span.sample(), eve);
    }
    let both = UniformDateOfBirth::new(eve, last).unwrap();
    assert_eq!(both.sample(), eve);
    assert_eq!(span.end(), LAST_JULIAN_DAY);
}

#[test]
fn julian_day_numbers_are_those_of_the_calendar() {
    assert_eq!(DateOfBirth::new(2000, 1, 1).unwrap().to_julian_day(), 2_451_545);
    assert_eq!(DateOfBirth::new(2019, 1, 1).unwrap().to_julian_day(), 2_458_485);
    assert_eq!(DateOfBirth::new(2019, 12, 31).unwrap().to_julian_day(), 2_458_849);
    assert_eq!(
        DateOfBirth::from_julian_day(2_451_545),
        DateOfBirth::new(2000, 1, 1)
    );
    assert_eq!(
        DateOfBirth::from_julian_day(2_458_849),
        DateOfBirth::new(2019, 12, 31)
    );
    // The day with number zero lies in the year -4713, which four digits cannot write.
    assert_eq!(DateOfBirth::from_julian_day(0), None);
    assert_eq!(DateOfBirth::from_julian_day(i32::MAX), None);
    assert_eq!(DateOfBirth::from_julian_day(i32::MIN), None);
    let first = DateOfBirth::new(0, 1, 1).unwrap();
    assert_eq!(first.to_julian_day(), FIRST_JULIAN_DAY);
    assert_eq!(FIRST_JULIAN_DAY, 1_721_060);
    assert_eq!(DateOfBirth::from_julian_day(FIRST_JULIAN_DAY), Some(first));
    assert_eq!(DateOfBirth::from_julian_day(FIRST_JULIAN_DAY - 1), None);
    let last = DateOfBirth::new(9999, 12, 31).unwrap();
    assert_eq!(last.to_julian_day(), LAST_JULIAN_DAY);
    assert_eq!(LAST_JULIAN_DAY, 5_373_484);
    assert_eq!(DateOfBirth::from_julian_day(LAST_JULIAN_DAY), Some(last));
    assert_eq!(DateOfBirth::from_julian_day(LAST_JULIAN_DAY + 1), None);
}

#[test]
fn every_julian_day_has_its_date_and_every_date_its_day() {
    let mut expected = DateOfBirth::new(0, 1, 1).unwrap();
    for number in FIRST_JULIAN_DAY..=LAST_JULIAN_DAY {
        let date = DateOfBirth::from_julian_day(number).unwrap();
        assert_eq!(date, expected);
        assert_eq!(date.to_julian_day(), number);
        if number < LAST_JULIAN_DAY {
            let (year, month, day) = (date.year(), date.month(), date.day());
            expected = if day < last_day_of_month(year, month) {
                DateOfBirth::new(year, month, day + 1).unwrap()
            } else if month < 12 {
                DateOfBirth::new(year, month + 1, 1).unwrap()
            } else {
                DateOfBirth::new(year + 1, 1, 1).unwrap()
            };
        }
    }
    assert_eq!(expected, DateOfBirth::new(9999, 12, 31).unwrap());
}

#[test]
fn julian_day_zero_is_the_24th_of_november_4714_bc() {
    assert_eq!(
        time::Date::from_julian_day(0).unwrap(),
        time::Date::from_calendar_date(-4713, time::Month::November, 24).unwrap()
    );
    assert_eq!(
        time::Date::from_calendar_date(-9999, time::Month::January, 1)
            .unwrap()
            .to_julian_day(),
        time::Date::MIN.to_julian_day()
    );
    assert!(time::Date::from_julian_day(time::Date::MIN.to_julian_day() - 1).is_err());
    assert!(time::Date::from_julian_day(time::Date::MAX.to_julian_day() + 1).is_err());
    assert_eq!(time::Date::MAX.to_julian_day(), LAST_JULIAN_DAY);
}

#[test]
fn leap_years() {
    assert!(is_leap(2000));
    assert!(is_leap(2024));
    assert!(is_leap(0));
    assert!(is_leap(1600));
    assert!(!is_leap(1900));
    assert!(!is_leap(2100));
    assert!(!is_leap(2023));
    assert!(!is_leap(1));
}

#[test]
fn month_lengths() {
    let common = [31, 28, 31, 30, 31, 30, 31, 31, 30, 31, 30, 31];
    for month in 1..=12u8 {
        assert_eq!(last_day_of_month(2023, month), common[month as usize - 1]);
    }
    assert_eq!(last_day_of_month(2024, 2), 29);
    assert_eq!(last_day_of_month(1900, 2), 28);
    assert_eq!(last_day_of_month(2000, 2), 29);
}

#[test]
fn only_days_that_exist_are_dates() {
    assert!(DateOfBirth::new(2024, 2, 29).is_some());
    assert!(DateOfBirth::new(2023, 2, 29).is_none());
    assert!(DateOfBirth::new(1900, 2, 29).is_none());
    assert!(DateOfBirth::new(2000, 2, 29).is_some());
    assert!(DateOfBirth::new(2023, 2, 30).is_none());
    assert!(DateOfBirth::new(2023, 4, 31).is_none());
    assert!(DateOfBirth::new(2023, 4, 30).is_some());
    assert!(DateOfBirth::new(2023, 12, 31).is_some());
    assert!(DateOfBirth::new(2023, 12, 32).is_none());
    assert!(DateOfBirth::new(2023, 0, 1).is_none());
    assert!(DateOfBirth::new(2023, 13, 1).is_none());
    assert!(DateOfBirth::new(2023, 1, 0).is_none());
    assert!(DateOfBirth::new(0, 1, 1).is_some());
    assert!(DateOfBirth::new(9999, 12, 31).is_some());
    assert!(DateOfBirth::new(10000, 1, 1).is_none());
    let date = DateOfBirth::new(1987, 6, 5).unwrap();
    assert_eq!((date.year(), date.month(), date.day()), (1987, 6, 5));
}

#[test]
fn dates_are_written_with_leading_zeros() {
    assert_eq!(DateOfBirth::new(2020, 1, 2).unwrap().to_string(), "2020-01-02");
    assert_eq!(DateOfBirth::new(987, 12, 31).unwrap().to_string(), "0987-12-31");
    assert_eq!(DateOfBirth::new(0, 1, 1).unwrap().to_string(), "0000-01-01");
    assert_eq!(DateOfBirth::new(9999, 10, 10).unwrap().to_string(), "9999-10-10");
}

#[test]
fn texts_that_are_no_dates() {
    for text in [
        "", "2020-01-2", "2020-1-02", "20200102", "2020/01/02", "2020-01-02 ", " 2020-01-02",
        "+2020-01-02", "-020-01-02", "2020-01-0２", "２０２０-01-02", "2020-01-02T", "abcd-ef-gh",
        "2020_01_02", "2020-01--2",
    ] {
        assert_eq!(DateOfBirth::from_str(text), Err(DateParseError::Malformed), "{:?}", text);
    }
    for text in [
        "2023-02-29", "2020-00-10", "2020-13-01", "2020-01-00", "2020-01-32", "2021-04-31",
        "1900-02-29", "2020-99-99",
    ] {
        assert_eq!(DateOfBirth::from_str(text), Err(DateParseError::NoSuchDay), "{:?}", text);
    }
    assert_eq!(
        DateParseError::Malformed.message(),
        "the date is not written as YYYY-MM-DD"
    );
    assert_eq!(DateParseError::NoSuchDay.message(), "the calendar has no such day");
}

#[test]
fn reading_and_writing_are_inverse() {
    for text in ["2020-01-02", "0000-01-01", "9999-12-31", "2024-02-29", "1999-11-30"] {
        assert_eq!(DateOfBirth::from_str(text).unwrap().to_string(), text);
    }
    for year in [0u16, 1, 99, 100, 1900, 2000, 2023, 2024, 9999] {
        for month in 1..=12u8 {
            for day in 1..=last_day_of_month(year, month) {
                let date = DateOfBirth::new(year, month, day).unwrap();
                assert_eq!(DateOfBirth::from_str(&date.to_string()), Ok(date));
            }
        }
    }
}

#[test]
fn dates_are_ordered_by_year_month_day() {
    let a = DateOfBirth::new(2020, 1, 31).unwrap();
    let b = DateOfBirth::new(2020, 2, 1).unwrap();
    let c = DateOfBirth::new(2021, 1, 1).unwrap();
    assert!(a.is_before(&b));
    assert!(b.is_before(&c));
    assert!(a.is_before(&c));
    assert!(!b.is_before(&a));
    assert!(!a.is_before(&a));
    assert!(a < b && b < c && a < c);
    assert!(a <= a && a >= a);
    assert_eq!(a.max(c), c);
    let mut dates = vec![c, a, b];
    dates.sort();
    assert_eq!(dates, vec![a, b, c]);
    assert!(a.to_julian_day() < b.to_julian_day());
    assert_eq!(b.to_julian_day(), a.to_julian_day() + 1);
}

#[test]
fn generated_dates_exist_and_lie_in_the_last_120_years() {
    for _ in 0..2000 {
        let date = gen_date_of_birth_in(2024).unwrap();
        assert!(1904 <= date.year() && date.year() <= 2024);
        assert!(1 <= date.month() && date.month() <= 12);
        assert!(1 <= date.day() && date.day() <= last_day_of_month(date.year(), date.month()));
        if date.month() == 2 && date.day() == 29 {
            assert!(is_leap(date.year()));
        }
        assert_eq!(DateOfBirth::new(date.year(), date.month(), date.day()), Some(date));
    }
}

#[test]
fn every_year_and_month_of_the_span_is_drawn() {
    let mut years = HashSet::new();
    let mut months = HashSet::new();
    let mut days = HashSet::new();
    for _ in 0..20000 {
        let date = gen_date_of_birth_in(2024).unwrap();
        years.insert(date.year());
        months.insert(date.month());
        days.insert(date.day());
    }
    assert_eq!(years.len(), 121);
    assert_eq!(months.len(), 12);
    assert_eq!(days.len(), 31);
}

#[test]
fn no_dates_are_drawn_outside_of_four_digit_years() {
    assert!(gen_date_of_birth_in(119).is_none());
    assert!(gen_date_of_birth_in(120).is_some());
    assert!(gen_date_of_birth_in(9999).is_some());
    assert!(gen_date_of_birth_in(10000).is_none());
    assert!(gen_date_of_birth_in(-1).is_none());
    assert!(gen_date_of_birth_in(i32::MIN).is_none());
    assert!(gen_date_of_birth_in(i32::MAX).is_none());
    assert_eq!(gen_date_of_birth_in(120).unwrap().year() <= 120, true);
}

#[test]
fn dates_are_drawn_by_the_clock() {
    let date = gen_date_of_birth().unwrap();
    let text = date.to_string();
    assert_eq!(text.len(), 10);
    assert_eq!(DateOfBirth::from_str(&text), Ok(date));
    let this_year = time::OffsetDateTime::now_utc().year();
    assert!((date.year() as i32) <= this_year + 1);
    assert!((date.year() as i32) >= this_year - 121);
}
