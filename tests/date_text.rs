use laundry_plan::date::{CalendarDate, YEAR_LIMIT};
use laundry_plan::date_text::{localdate_to_string, string_to_local_date};

fn ymd(date: Option<CalendarDate>) -> Option<(i64, u8, u8)> {
    date.map(|d| (d.year, d.month, d.day))
}

#[test]
fn reads_day_month_year() {
    let date = string_to_local_date("1.8.2025").unwrap();
    assert_eq!((date.year, date.month, date.day, date.yearday, date.weekday), (2025, 8, 1, 213, 5));
    assert_eq!(date.key(), 20250801);
    assert_eq!(ymd(string_to_local_date("01.08.2025")), Some((2025, 8, 1)));
    assert_eq!(ymd(string_to_local_date("+29.2.2024")), Some((2024, 2, 29)));
}

#[test]
fn pieces_that_are_no_number_are_skipped() {
    assert_eq!(ymd(string_to_local_date("1.x.8.2025")), Some((2025, 8, 1)));
    assert_eq!(ymd(string_to_local_date("1..8.2025.")), Some((2025, 8, 1)));
    assert_eq!(ymd(string_to_local_date("1.8.99999999999999999999.2025")), Some((2025, 8, 1)));
}

#[test]
fn month_and_day_are_read_as_i8() {
    assert_eq!(ymd(string_to_local_date("1.264.2025")), Some((2025, 8, 1)));
    assert_eq!(ymd(string_to_local_date("257.8.2025")), Some((2025, 8, 1)));
}

#[test]
fn text_that_names_no_date() {
    assert!(string_to_local_date("").is_none());
    assert!(string_to_local_date("1.8").is_none());
    assert!(string_to_local_date("1.8.2025.4").is_none());
    assert!(string_to_local_date("31.2.2025").is_none());
    assert!(string_to_local_date("29.2.2025").is_none());
    assert!(string_to_local_date("1.13.2025").is_none());
    assert!(string_to_local_date("0.1.2025").is_none());
    assert!(string_to_local_date("1.-8.2025").is_none());
    assert!(string_to_local_date("1.8.100000000000001").is_none());
    assert!(string_to_local_date("1 .8.2025").is_none());
}

#[test]
fn prints_year_month_day() {
    let date = string_to_local_date("1.8.2025").unwrap();
    assert_eq!(localdate_to_string(&date), "2025/8/1");
    let date = CalendarDate::first_of_year(0);
    assert_eq!(localdate_to_string(&date), "0/1/1");
}

#[test]
fn years_before_zero_and_far_ahead() {
    let date = string_to_local_date("1.1.-1").unwrap();
    assert_eq!((date.year, date.yearday, date.weekday), (-1, 1, 5));
    assert_eq!(localdate_to_string(&date), "-1/1/1");
    assert_eq!(date.key(), -10000 + 101);
    let date = string_to_local_date("1.8.70000").unwrap();
    assert_eq!(localdate_to_string(&date), "70000/8/1");
    let date = string_to_local_date("29.2.2000").unwrap();
    assert_eq!((date.month, date.day, date.yearday, date.key()), (2, 29, 60, 20000229));
    assert_eq!(string_to_local_date("1.1.2025").unwrap().weekday, 3);
}

#[test]
fn dates_from_year_month_day() {
    let date = CalendarDate::from_ymd(2000, 2, 29).unwrap();
    assert_eq!((date.month, date.day, date.yearday, date.weekday), (2, 29, 60, 2));
    assert_eq!(localdate_to_string(&date), "2000/2/29");
    assert!(CalendarDate::from_ymd(1900, 2, 29).is_none());
    assert!(CalendarDate::from_ymd(2025, 4, 31).is_none());
    assert!(CalendarDate::from_ymd(2025, 0, 1).is_none());
    assert!(CalendarDate::from_ymd(2025, 1, 200).is_none());
    assert!(CalendarDate::from_ymd(YEAR_LIMIT + 1, 1, 1).is_none());
    assert_eq!(CalendarDate::from_ymd(-YEAR_LIMIT, 12, 31).unwrap().yearday, 366);
}
