use std::collections::{BTreeMap, HashMap};

use laundry_plan::building::{Apartment, ApartmentInfo};
use laundry_plan::calendar::{create_full_year, Day, YearMap};
use laundry_plan::config::{Config, FloorInfo, TwoApartmentFloorInfo};
use laundry_plan::countdown::FloorPosition;
use laundry_plan::date::{holiday_key, month_to_string, CalendarDate};

fn building() -> Config {
    let mut position_map = HashMap::new();
    position_map.insert(
        1,
        FloorInfo::TwoApartments(TwoApartmentFloorInfo { left_days_total: 1, right_days_total: 1 }),
    );
    Config { position_map, title: "Haus".to_string() }
}

fn seed(cfg: &Config) -> Apartment {
    let info = ApartmentInfo::new(cfg, 1, FloorPosition::Left, 0).unwrap();
    Apartment::new(info, &cfg.position_map).unwrap()
}

fn holidays() -> BTreeMap<i64, String> {
    let mut map = BTreeMap::new();
    map.insert(holiday_key(2025, 1, 2), "Berchtoldstag".to_string());
    map
}

fn total(year_map: &YearMap) -> usize {
    year_map.0.values().map(|days| days.len()).sum()
}

#[test]
fn leap_year_has_366_records() {
    let cfg = building();
    let year_map = create_full_year(&cfg, 2024, seed(&cfg), true, &BTreeMap::new());
    assert_eq!(total(&year_map), 366);
    assert_eq!(year_map.0.len(), 12);
    assert_eq!(year_map.0[&1].len(), 29);
    assert_eq!(year_map.0[&11].last().unwrap().date, "31.12");
}

#[test]
fn common_year_has_365_records() {
    let cfg = building();
    let year_map = create_full_year(&cfg, 2025, seed(&cfg), false, &holidays());
    assert_eq!(total(&year_map), 365);
    assert_eq!(year_map.0[&1].len(), 28);
    for month in 0..12i8 {
        assert!(year_map.0.contains_key(&month));
    }
}

#[test]
fn excluded_days_freeze_the_rotation() {
    let cfg = building();
    let hol = holidays();
    let first = Day::new(2025, seed(&cfg), &cfg.position_map, true, &hol);
    assert_eq!(first.print(), "1.1 Mi 1. Rechts");
    let second = first.next(&cfg.position_map, true, &hol).unwrap();
    assert_eq!(second.print(), "2.1 Do Berchtoldstag");
    assert_eq!(second.appartment.extract_appartment(), first.appartment.extract_appartment());
    let third = second.next(&cfg.position_map, true, &hol).unwrap();
    assert_eq!(third.print(), "3.1 Fr 1. Links");
    let fourth = third.next(&cfg.position_map, true, &hol).unwrap();
    let sunday = fourth.next(&cfg.position_map, true, &hol).unwrap();
    let data = sunday.create_html_data();
    assert_eq!((data.date.as_str(), data.day.as_str(), data.appartment.as_str()), ("5.1", "So", ""));
    assert_eq!(sunday.appartment.extract_appartment(), fourth.appartment.extract_appartment());
    let monday = sunday.next(&cfg.position_map, true, &hol).unwrap();
    assert_eq!(monday.print(), "6.1 Mo 1. Links");
}

#[test]
fn full_year_groups_records_by_month() {
    let cfg = building();
    let year_map = create_full_year(&cfg, 2025, seed(&cfg), true, &holidays());
    let january: Vec<(&str, &str, &str)> = year_map.0[&0]
        .iter()
        .take(6)
        .map(|d| (d.date.as_str(), d.day.as_str(), d.appartment.as_str()))
        .collect();
    assert_eq!(
        january,
        vec![
            ("1.1", "Mi", "1. Rechts"),
            ("2.1", "Do", "Berchtoldstag"),
            ("3.1", "Fr", "1. Links"),
            ("4.1", "Sa", "1. Rechts"),
            ("5.1", "So", ""),
            ("6.1", "Mo", "1. Links"),
        ]
    );
    assert_eq!(year_map.0[&0].len(), 31);
    assert_eq!(year_map.0[&1][0].date, "1.2");
    assert_eq!(year_map.0[&1][0].day, "Sa");
}

#[test]
fn sundays_count_when_not_excluded() {
    let cfg = building();
    let year_map = create_full_year(&cfg, 2025, seed(&cfg), false, &BTreeMap::new());
    assert_eq!(year_map.0[&0][4].appartment, "1. Rechts");
}

#[test]
fn last_day_of_year_ends_the_sequence() {
    let cfg = building();
    let mut day = Day::new(2023, seed(&cfg), &cfg.position_map, false, &BTreeMap::new());
    let mut count = 1;
    while let Some(next) = day.next(&cfg.position_map, false, &BTreeMap::new()) {
        day = next;
        count += 1;
    }
    assert_eq!(count, 365);
    assert_eq!(day.date.yearday, 365);
    assert_eq!((day.date.month, day.date.day, day.date.weekday), (12, 31, 0));
}

#[test]
fn first_of_year_reads_the_calendar() {
    let date = CalendarDate::first_of_year(2024);
    assert_eq!((date.year, date.month, date.day, date.yearday, date.weekday), (2024, 1, 1, 1, 1));
    let next = date.next_in_year().unwrap();
    assert_eq!((next.month, next.day, next.yearday, next.weekday), (1, 2, 2, 2));
    assert_eq!(next.key(), 20240102);
}

#[test]
fn holiday_keys_and_month_names() {
    assert_eq!(holiday_key(2025, 8, 1), 20250801);
    assert_eq!(month_to_string(0), "Januar");
    assert_eq!(month_to_string(2), "März");
    assert_eq!(month_to_string(11), "Dezember");
}

#[test]
fn every_day_of_the_year_in_order() {
    for (year, february) in [(2024u16, 29u8), (2025, 28), (1900, 28), (2000, 29), (2100, 28), (2104, 29), (2400, 29), (0, 29)] {
        let lengths = [31, february, 31, 30, 31, 30, 31, 31, 30, 31, 30, 31];
        let mut date = CalendarDate::first_of_year(year);
        let mut weekday = date.weekday;
        for (index, length) in lengths.iter().enumerate() {
            for day in 1..=*length {
                assert_eq!((date.year, date.month, date.day), (year as i64, index as u8 + 1, day));
                assert_eq!(date.weekday, weekday);
                weekday = (weekday + 1) % 7;
                match date.next_in_year() {
                    Some(next) => {
                        assert_eq!(next.yearday, date.yearday + 1);
                        date = next;
                    },
                    None => assert_eq!((index, day), (11, 31)),
                }
            }
        }
    }
}

#[test]
fn leap_day_of_a_year_divisible_by_400() {
    let mut date = CalendarDate::first_of_year(2000);
    for _ in 1..59 {
        date = date.next_in_year().unwrap();
    }
    assert_eq!((date.month, date.day, date.yearday), (2, 28, 59));
    let leap_day = date.next_in_year().unwrap();
    assert_eq!((leap_day.month, leap_day.day, leap_day.yearday, leap_day.weekday), (2, 29, 60, 2));
    let march = leap_day.next_in_year().unwrap();
    assert_eq!((march.month, march.day, march.yearday, march.weekday), (3, 1, 61, 3));
    assert_ne!(leap_day.key(), march.key());
}

#[test]
fn calendar_of_2000_keeps_every_month() {
    let cfg = building();
    let mut hol = BTreeMap::new();
    hol.insert(holiday_key(2000, 2, 29), "Schalttag".to_string());
    let year_map = create_full_year(&cfg, 2000, seed(&cfg), false, &hol);
    assert_eq!(total(&year_map), 366);
    let lengths = [31usize, 29, 31, 30, 31, 30, 31, 31, 30, 31, 30, 31];
    for (month, length) in lengths.iter().enumerate() {
        let days = &year_map.0[&(month as i8)];
        assert_eq!(days.len(), *length);
        for (k, day) in days.iter().enumerate() {
            assert_eq!(day.date, format!("{}.{}", k + 1, month + 1));
        }
    }
    let february = &year_map.0[&1];
    assert_eq!((february[28].day.as_str(), february[28].appartment.as_str()), ("Di", "Schalttag"));
    assert_ne!(year_map.0[&2][0].appartment, february[27].appartment);
    assert_eq!(year_map.0[&2][0].appartment, february[26].appartment);
}
