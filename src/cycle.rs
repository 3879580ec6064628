use vstd::prelude::*;
use crate::building::{Apartment, Floor};
use crate::config::{
    config_valid, floor_max, floor_min, info_valid, lemma_floor_count_bound, FloorInfo,
};
use crate::countdown::FloorPosition;
use crate::position::{initial_position, side_total, Position};

verus! {

/// The days one full turn of a floor takes: the totals of its apartments.
pub open spec fn floor_days(info: FloorInfo) -> int {
    match info {
        FloorInfo::OneApartment(i) => i.days_total as int,
        FloorInfo::TwoApartments(i) => i.left_days_total + i.right_days_total,
        FloorInfo::ThreeApartments(i) => i.left_days_total + i.middle_days_total
            + i.right_days_total,
    }
}

/// The days of a floor's turn that come before those of `side`.
pub open spec fn side_start(info: FloorInfo, side: FloorPosition) -> int {
    match info {
        FloorInfo::OneApartment(_) => 0,
        FloorInfo::TwoApartments(i) => if side == FloorPosition::Right {
            i.left_days_total as int
        } else {
            0
        },
        FloorInfo::ThreeApartments(i) => match side {
            FloorPosition::Left => 0,
            FloorPosition::Middle => i.left_days_total as int,
            FloorPosition::Right => i.left_days_total + i.middle_days_total,
        },
    }
}

/// How many days of the floor's turn lie before the current one.
pub open spec fn offset(p: Position, info: FloorInfo) -> int {
    side_start(info, p.side()) + side_total(info, p.side()) - 1 - p.countdown().days_left
}

/// The days that the turns of the floors below `floor` take together.
pub open spec fn floor_start(m: Map<u32, FloorInfo>, floor: int) -> int
    decreases floor,
{
    if floor <= floor_min(m) || floor <= 0 {
        0
    } else {
        floor_start(m, floor - 1) + floor_days(m[(floor - 1) as u32])
    }
}

/// The days one full rotation through the building takes: the totals of all
/// its apartments.
pub open spec fn building_days(m: Map<u32, FloorInfo>) -> int {
    floor_start(m, floor_max(m) + 1)
}

/// How many days of a full rotation, started on the first day of the lowest
/// floor, lie before the apartment's current day.
pub open spec fn rank(a: Apartment, m: Map<u32, FloorInfo>) -> int {
    floor_start(m, a.floor.floor as int) + offset(a.position, m[a.floor.floor])
}

proof fn lemma_offset_range(p: Position, info: FloorInfo)
    requires
        p.wf(info),
    ensures
        0 <= offset(p, info) < floor_days(info),
        p.last_exhausted() <==> offset(p, info) == floor_days(info) - 1,
{
}

proof fn lemma_offset_step(p: Position, info: FloorInfo)
    requires
        p.wf(info),
        !p.last_exhausted(),
    ensures
        p.advanced(info) is Some,
        p.advanced(info)->Some_0.wf(info),
        offset(p.advanced(info)->Some_0, info) == offset(p, info) + 1,
{
}

proof fn lemma_initial(info: FloorInfo)
    requires
        info_valid(info),
    ensures
        initial_position(info).wf(info),
        offset(initial_position(info), info) == 0,
{
}

proof fn lemma_offset_injective(p: Position, q: Position, info: FloorInfo)
    requires
        p.wf(info),
        q.wf(info),
        offset(p, info) == offset(q, info),
    ensures
        p == q,
{
    match (p, q) {
        (Position::SingleApartmentFloor(a), Position::SingleApartmentFloor(b)) => {
            assert(a.position == b.position);
        },
        (Position::TwoApartmentFloor(a), Position::TwoApartmentFloor(b)) => {
            assert(a.position.floor_position == b.position.floor_position);
            assert(a.position.day_state == b.position.day_state);
        },
        (Position::ThreeApartmentFloor(a), Position::ThreeApartmentFloor(b)) => {
            assert(a.position.floor_position == b.position.floor_position);
            assert(a.position.day_state == b.position.day_state);
        },
        _ => {},
    }
}

proof fn lemma_floor_start_step(m: Map<u32, FloorInfo>, f: int)
    requires
        floor_min(m) <= f,
    ensures
        floor_start(m, f + 1) == floor_start(m, f) + floor_days(m[f as u32]),
{
}

/// Floor turns follow each other: the turns of the floors from `f` up to `g`
/// take at least the days of floor `f`.
proof fn lemma_floor_start_mono(m: Map<u32, FloorInfo>, f: int, g: int)
    requires
        config_valid(m),
        floor_min(m) <= f < g <= floor_max(m) + 1,
    ensures
        floor_start(m, f) + floor_days(m[f as u32]) <= floor_start(m, g),
    decreases g - f,
{
    lemma_floor_count_bound(m);
    lemma_floor_start_step(m, f);
    if g > f + 1 {
        lemma_floor_start_mono(m, f + 1, g);
        assert(m.contains_key((f + 1) as u32));
    }
}

proof fn lemma_rank_range(a: Apartment, m: Map<u32, FloorInfo>)
    requires
        a.wf(m),
    ensures
        0 <= rank(a, m) < building_days(m),
        a.position.last_exhausted() ==> rank(a, m) + 1 == floor_start(m, a.floor.floor + 1),
{
    let f = a.floor.floor as int;
    lemma_floor_count_bound(m);
    assert(m.contains_key(a.floor.floor));
    lemma_offset_range(a.position, m[a.floor.floor]);
    lemma_floor_start_nonneg(m, f);
    lemma_floor_start_step(m, f);
    if f < floor_max(m) {
        lemma_floor_start_mono(m, f + 1, floor_max(m) + 1);
        lemma_floor_start_nonneg(m, f + 1);
        assert(m.contains_key((f + 1) as u32));
    }
}

proof fn lemma_floor_start_nonneg(m: Map<u32, FloorInfo>, f: int)
    requires
        config_valid(m),
        f <= floor_max(m) + 1,
    ensures
        0 <= floor_start(m, f),
    decreases f,
{
    lemma_floor_count_bound(m);
    if f > floor_min(m) && f > 0 {
        lemma_floor_start_nonneg(m, f - 1);
        assert(m.contains_key((f - 1) as u32));
    }
}

/// One rotation step moves the rank on by one day, round the building.
proof fn lemma_rank_step(a: Apartment, m: Map<u32, FloorInfo>)
    requires
        a.wf(m),
    ensures
        a.advanced(m).wf(m),
        rank(a.advanced(m), m) == (rank(a, m) + 1) % building_days(m),
{
    let f = a.floor.floor;
    let info = m[f];
    let l = building_days(m);
    lemma_floor_count_bound(m);
    assert(m.contains_key(f));
    lemma_rank_range(a, m);
    if a.position.last_exhausted() {
        let next = a.floor.advanced();
        assert(m.contains_key(next.floor));
        lemma_initial(m[next.floor]);
        if f as int == floor_max(m) {
            assert(next.floor as int == floor_min(m));
            vstd::arithmetic::div_mod::lemma_mod_self_0(l);
        } else {
            assert(next.floor == f + 1);
            lemma_rank_range(a.advanced(m), m);
            vstd::arithmetic::div_mod::lemma_small_mod((rank(a, m) + 1) as nat, l as nat);
        }
    } else {
        lemma_offset_step(a.position, info);
        lemma_rank_range(a.advanced(m), m);
        vstd::arithmetic::div_mod::lemma_small_mod((rank(a, m) + 1) as nat, l as nat);
    }
}

/// Apartments of a building with the same rank are the same.
proof fn lemma_rank_injective(a: Apartment, b: Apartment, m: Map<u32, FloorInfo>)
    requires
        a.wf(m),
        b.wf(m),
        rank(a, m) == rank(b, m),
    ensures
        a == b,
{
    let fa = a.floor.floor as int;
    let fb = b.floor.floor as int;
    assert(m.contains_key(a.floor.floor));
    assert(m.contains_key(b.floor.floor));
    lemma_offset_range(a.position, m[a.floor.floor]);
    lemma_offset_range(b.position, m[b.floor.floor]);
    if fa < fb {
        lemma_floor_start_mono(m, fa, fb);
    } else if fb < fa {
        lemma_floor_start_mono(m, fb, fa);
    }
    assert(fa == fb);
    lemma_offset_injective(a.position, b.position, m[a.floor.floor]);
    assert(a.floor == b.floor);
}

proof fn lemma_rank_steps(a: Apartment, m: Map<u32, FloorInfo>, n: nat)
    requires
        a.wf(m),
    ensures
        a.advanced_by(m, n).wf(m),
        rank(a.advanced_by(m, n), m) == (rank(a, m) + n) % building_days(m),
    decreases n,
{
    lemma_rank_range(a, m);
    if n == 0 {
        vstd::arithmetic::div_mod::lemma_small_mod(rank(a, m) as nat, building_days(m) as nat);
    } else {
        lemma_rank_step(a, m);
        let b = a.advanced(m);
        lemma_rank_steps(b, m, (n - 1) as nat);
        let l = building_days(m);
        let r = rank(a, m);
        vstd::arithmetic::div_mod::lemma_add_mod_noop(r + 1, (n - 1) as int, l);
        vstd::arithmetic::div_mod::lemma_mod_twice(r + 1, l);
        vstd::arithmetic::div_mod::lemma_add_mod_noop((r + 1) % l, (n - 1) as int, l);
    }
}

/// A full rotation brings every apartment of a valid building back: after
/// as many steps as the building's apartments have days together, the
/// rotation stands where it started, and not before.
pub proof fn lemma_building_period(a: Apartment, m: Map<u32, FloorInfo>, n: nat)
    requires
        a.wf(m),
    ensures
        a.advanced_by(m, building_days(m) as nat) == a,
        0 < n < building_days(m) ==> a.advanced_by(m, n) != a,
{
    let l = building_days(m);
    lemma_rank_range(a, m);
    lemma_rank_steps(a, m, l as nat);
    vstd::arithmetic::div_mod::lemma_add_mod_noop(rank(a, m), l, l);
    vstd::arithmetic::div_mod::lemma_mod_self_0(l);
    vstd::arithmetic::div_mod::lemma_small_mod(rank(a, m) as nat, l as nat);
    lemma_rank_injective(a.advanced_by(m, l as nat), a, m);
    if 0 < n < l {
        lemma_rank_steps(a, m, n);
        if rank(a, m) + n < l {
            vstd::arithmetic::div_mod::lemma_small_mod((rank(a, m) + n) as nat, l as nat);
        } else {
            vstd::arithmetic::div_mod::lemma_mod_sub_multiples_vanish(rank(a, m) + n, l);
            vstd::arithmetic::div_mod::lemma_small_mod((rank(a, m) + n - l) as nat, l as nat);
        }
    }
}

} // verus!
