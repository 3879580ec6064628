use std::collections::HashMap;

use laundry_plan::building::{Apartment, ApartmentInfo, Floor};
use laundry_plan::config::{
    validate_config, Config, FloorInfo, FloorInfoError, SingleApartmentFloorInfo,
    ThreeApartmentFloorInfo, TwoApartmentFloorInfo, ValidationError,
};
use laundry_plan::countdown::{DayState, FloorPosition};
use laundry_plan::position::{create_position, initial_appartment_position, Position};

fn one(days_total: u8) -> FloorInfo {
    FloorInfo::OneApartment(SingleApartmentFloorInfo { days_total })
}

fn two(left: u8, right: u8) -> FloorInfo {
    FloorInfo::TwoApartments(TwoApartmentFloorInfo {
        left_days_total: left,
        right_days_total: right,
    })
}

fn three(left: u8, middle: u8, right: u8) -> FloorInfo {
    FloorInfo::ThreeApartments(ThreeApartmentFloorInfo {
        left_days_total: left,
        middle_days_total: middle,
        right_days_total: right,
    })
}

fn config(floors: &[(u32, FloorInfo)]) -> Config {
    let mut position_map = HashMap::new();
    for (floor, info) in floors {
        position_map.insert(*floor, *info);
    }
    Config { position_map, title: "Haus".to_string() }
}

fn seed(cfg: &Config, floor: u32, side: FloorPosition, days_left: u8) -> Apartment {
    let info = ApartmentInfo::new(cfg, floor, side, days_left).unwrap();
    Apartment::new(info, &cfg.position_map).unwrap()
}

#[test]
fn countdown_returns_after_total_plus_one_steps() {
    for total in 0u8..6 {
        let start = DayState::new(total);
        let mut state = start;
        for step in 0..(total as usize + 1) {
            if step > 0 {
                assert_ne!(state, start);
            }
            state = state.next();
        }
        assert_eq!(state, start);
    }
    let mid = DayState { days_left: 1, days_total: 3 };
    let mut state = mid;
    for _ in 0..4 {
        state = state.next();
    }
    assert_eq!(state, mid);
}

#[test]
fn countdown_counts_down_then_restarts() {
    let state = DayState::new(2);
    assert!(!state.is_max());
    let state = state.next();
    assert_eq!(state, DayState { days_left: 1, days_total: 2 });
    let state = state.next();
    assert!(state.is_max());
    assert_eq!(state.next(), DayState { days_left: 2, days_total: 2 });
}

#[test]
fn building_returns_after_sum_of_totals() {
    let cfg = config(&[(0, one(2)), (1, two(1, 2)), (2, three(2, 1, 2))]);
    let start = seed(&cfg, 1, FloorPosition::Right, 1);
    let mut apartment = start;
    for step in 1..=10 {
        apartment = apartment.next(&cfg.position_map);
        if step < 10 {
            assert_ne!(apartment, start);
        }
    }
    assert_eq!(apartment, start);
}

#[test]
fn three_apartment_floor_cycles_left_middle_right() {
    let cfg = config(&[(0, one(1)), (1, three(2, 1, 2))]);
    let mut apartment = seed(&cfg, 1, FloorPosition::Left, 1);
    let mut labels = vec![apartment.print()];
    for _ in 0..5 {
        apartment = apartment.next(&cfg.position_map);
        labels.push(apartment.print());
    }
    assert_eq!(labels, vec!["1. Links", "1. Links", "1. Mitte", "1. Rechts", "1. Rechts", "P"]);
}

#[test]
fn single_apartment_floors_roll_every_day() {
    let cfg = config(&[(0, one(1)), (1, one(1)), (2, two(1, 1))]);
    let mut apartment = seed(&cfg, 0, FloorPosition::Left, 0);
    assert!(apartment.position.is_max());
    let mut labels = vec![apartment.print()];
    for _ in 0..6 {
        apartment = apartment.next(&cfg.position_map);
        if let Position::SingleApartmentFloor(_) = apartment.position {
            assert!(apartment.position.is_max());
        }
        labels.push(apartment.print());
    }
    assert_eq!(labels, vec!["P", "1", "2. Links", "2. Rechts", "P", "1", "2. Links"]);
    for pair in labels.windows(2) {
        assert_ne!(pair[0], pair[1]);
    }
}

#[test]
fn zero_total_is_rejected_with_floor_and_side() {
    let cfg = config(&[(0, two(0, 3))]);
    match validate_config(&cfg) {
        Err(ValidationError::FloorInfoError(err)) => {
            assert_eq!(err, FloorInfoError { floor: 0, position: Some(FloorPosition::Left) });
        },
        other => panic!("unexpected result {:?}", other),
    }
}

#[test]
fn zero_total_on_single_and_three_floors() {
    let cfg = config(&[(1, one(1)), (2, three(1, 0, 0))]);
    match validate_config(&cfg) {
        Err(ValidationError::FloorInfoError(err)) => {
            assert_eq!(err, FloorInfoError { floor: 2, position: Some(FloorPosition::Middle) });
        },
        other => panic!("unexpected result {:?}", other),
    }
    let cfg = config(&[(1, one(0))]);
    match validate_config(&cfg) {
        Err(ValidationError::FloorInfoError(err)) => {
            assert_eq!(err, FloorInfoError { floor: 1, position: None });
        },
        other => panic!("unexpected result {:?}", other),
    }
}

#[test]
fn skipped_floor_is_rejected() {
    let cfg = config(&[(0, one(1)), (2, one(1))]);
    match validate_config(&cfg) {
        Err(ValidationError::FloorSkipped(floor)) => assert_eq!(floor, 1),
        other => panic!("unexpected result {:?}", other),
    }
    let cfg = config(&[(2, one(1)), (3, one(1))]);
    match validate_config(&cfg) {
        Err(ValidationError::FloorSkipped(floor)) => assert_eq!(floor, 1),
        other => panic!("unexpected result {:?}", other),
    }
}

#[test]
fn dense_configurations_are_accepted() {
    assert!(validate_config(&config(&[(0, one(1)), (1, two(1, 2)), (2, three(1, 1, 1))])).is_ok());
    assert!(validate_config(&config(&[(1, two(3, 2)), (2, one(4))])).is_ok());
}

#[test]
fn seed_rejects_side_not_on_floor() {
    let info = two(2, 2);
    assert!(create_position(&info, &FloorPosition::Middle, 0).is_none());
    assert!(create_position(&info, &FloorPosition::Right, 2).is_none());
    let pos = create_position(&info, &FloorPosition::Right, 1).unwrap();
    assert_eq!(pos.print(), "Rechts");
    let pos = create_position(&three(1, 3, 1), &FloorPosition::Middle, 2).unwrap();
    assert_eq!(pos.print(), "Mitte");
    let cfg = config(&[(1, two(1, 1))]);
    let info = ApartmentInfo::new(&cfg, 1, FloorPosition::Middle, 0).unwrap();
    assert!(Apartment::new(info, &cfg.position_map).is_none());
    assert!(ApartmentInfo::new(&cfg, 2, FloorPosition::Left, 0).is_none());
}

#[test]
fn initial_position_is_left_with_all_days() {
    let pos = initial_appartment_position(&three(3, 1, 1));
    match pos {
        Position::ThreeApartmentFloor(p) => {
            assert_eq!(p.position.floor_position, FloorPosition::Left);
            assert_eq!(p.position.day_state, DayState { days_left: 2, days_total: 2 });
        },
        _ => panic!("wrong layout"),
    }
    assert_eq!(pos.print(), "Links");
    let pos = initial_appartment_position(&one(4));
    assert_eq!(pos.print(), "");
}

#[test]
fn apartment_labels() {
    let cfg = config(&[(0, two(1, 1)), (1, one(1)), (2, three(1, 1, 1)), (3, one(1)), (4, one(1)),
        (5, one(1)), (6, one(1)), (7, one(1)), (8, one(1)), (9, one(1)), (10, one(1))]);
    assert_eq!(seed(&cfg, 0, FloorPosition::Right, 0).print(), "P. Rechts");
    assert_eq!(seed(&cfg, 1, FloorPosition::Left, 0).print(), "1");
    assert_eq!(seed(&cfg, 2, FloorPosition::Middle, 0).print(), "2. Mitte");
    assert_eq!(seed(&cfg, 10, FloorPosition::Left, 0).print(), "10");
    let top = seed(&cfg, 10, FloorPosition::Left, 0);
    assert_eq!(top.next(&cfg.position_map).print(), "P. Links");
}

#[test]
fn floor_pointer_returns_after_all_floors() {
    let start = Floor { max: 3, has_ground_floor: false, floor: 2 };
    let mut floor = start;
    let mut visited = vec![];
    for _ in 0..3 {
        floor = floor.next();
        visited.push(floor.floor);
    }
    assert_eq!(visited, vec![3, 1, 2]);
    assert_eq!(floor, start);
    assert_eq!(Floor { max: 1, has_ground_floor: true, floor: 1 }.next().print(), "P");
}
