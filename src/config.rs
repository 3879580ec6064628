use std::collections::HashMap;
use vstd::prelude::*;
use vstd::set_lib::{lemma_len_subset, lemma_subset_equality, range_set_properties};
use crate::countdown::FloorPosition;

verus! {

/// A floor with a single apartment, which holds the slot `days_total` days in a row.
#[derive(Clone, Copy, Debug, PartialEq, Eq, Structural)]
pub struct SingleApartmentFloorInfo {
    pub days_total: u8,
}

/// A floor with a left and a right apartment.
#[derive(Clone, Copy, Debug, PartialEq, Eq, Structural)]
pub struct TwoApartmentFloorInfo {
    pub left_days_total: u8,
    pub right_days_total: u8,
}

/// A floor with a left, a middle and a right apartment.
#[derive(Clone, Copy, Debug, PartialEq, Eq, Structural)]
pub struct ThreeApartmentFloorInfo {
    pub left_days_total: u8,
    pub middle_days_total: u8,
    pub right_days_total: u8,
}

/// The layout of one floor: its apartments and how many days each keeps the slot.
#[derive(Clone, Copy, Debug, PartialEq, Eq, Structural)]
pub enum FloorInfo {
    OneApartment(SingleApartmentFloorInfo),
    TwoApartments(TwoApartmentFloorInfo),
    ThreeApartments(ThreeApartmentFloorInfo),
}

/// A floor whose layout gives some apartment no day at all.
#[derive(Clone, Copy, Debug, PartialEq, Eq, Structural)]
pub struct FloorInfoError {
    pub floor: u32,
    /// The offending side; `None` on a single-apartment floor.
    pub position: Option<FloorPosition>,
}

/// serde_json's `Error`, carried as it is by `ValidationError::FormatError`.
#[verifier::external_type_specification]
#[verifier::external_body]
pub struct ExJsonError(serde_json::Error);

/// Why a building configuration cannot be used.
#[derive(Debug)]
pub enum ValidationError {
    FloorInfoError(FloorInfoError),
    FloorSkipped(u32),
    FormatError(serde_json::Error),
}

/// A building: the layout of each floor, keyed by floor index, and a title.
pub struct Config {
    pub position_map: HashMap<u32, FloorInfo>,
    pub title: String,
}

/// The outcome of checking one floor: the first side, in cycle order, whose
/// total is zero.
pub open spec fn floor_check(info: FloorInfo, floor: u32) -> Result<(), FloorInfoError> {
    match info {
        FloorInfo::OneApartment(i) => if i.days_total == 0 {
            Err(FloorInfoError { floor, position: None })
        } else {
            Ok(())
        },
        FloorInfo::TwoApartments(i) => if i.left_days_total == 0 {
            Err(FloorInfoError { floor, position: Some(FloorPosition::Left) })
        } else if i.right_days_total == 0 {
            Err(FloorInfoError { floor, position: Some(FloorPosition::Right) })
        } else {
            Ok(())
        },
        FloorInfo::ThreeApartments(i) => if i.left_days_total == 0 {
            Err(FloorInfoError { floor, position: Some(FloorPosition::Left) })
        } else if i.middle_days_total == 0 {
            Err(FloorInfoError { floor, position: Some(FloorPosition::Middle) })
        } else if i.right_days_total == 0 {
            Err(FloorInfoError { floor, position: Some(FloorPosition::Right) })
        } else {
            Ok(())
        },
    }
}

/// Every apartment of the floor keeps the slot at least one day.
pub open spec fn info_valid(info: FloorInfo) -> bool {
    match info {
        FloorInfo::OneApartment(i) => i.days_total >= 1,
        FloorInfo::TwoApartments(i) => i.left_days_total >= 1 && i.right_days_total >= 1,
        FloorInfo::ThreeApartments(i) => i.left_days_total >= 1 && i.middle_days_total >= 1
            && i.right_days_total >= 1,
    }
}

/// The lowest floor: the ground floor 0 where the building has one, else 1.
pub open spec fn floor_min(m: Map<u32, FloorInfo>) -> int {
    if m.contains_key(0) {
        0
    } else {
        1
    }
}

/// The highest floor of a building whose floors are numbered without gaps.
pub open spec fn floor_max(m: Map<u32, FloorInfo>) -> int {
    floor_min(m) + m.len() - 1
}

/// The floors run from `floor_min` upwards without a gap.
pub open spec fn floors_dense(m: Map<u32, FloorInfo>) -> bool {
    forall|f: u32| #[trigger] m.contains_key(f) <==> floor_min(m) <= f < floor_min(m) + m.len()
}

/// A configuration that the rotation can run on.
pub open spec fn config_valid(m: Map<u32, FloorInfo>) -> bool {
    &&& m.dom().finite()
    &&& floors_dense(m)
    &&& forall|f: u32| #[trigger] m.contains_key(f) ==> info_valid(m[f])
}

/// Every floor from the lowest one up to `bound` (exclusive) is there and valid.
pub open spec fn valid_below(m: Map<u32, FloorInfo>, bound: int) -> bool {
    forall|g: u32| floor_min(m) <= g < bound ==> #[trigger] m.contains_key(g) && info_valid(m[g])
}

impl SingleApartmentFloorInfo {
    pub fn validate(&self, floor: u32) -> (r: Result<(), FloorInfoError>)
        ensures
            r == floor_check(FloorInfo::OneApartment(*self), floor),
    {
        if self.days_total == 0 {
            return Err(FloorInfoError { floor, position: None });
        }
        Ok(())
    }
}

impl TwoApartmentFloorInfo {
    pub fn validate(&self, floor: u32) -> (r: Result<(), FloorInfoError>)
        ensures
            r == floor_check(FloorInfo::TwoApartments(*self), floor),
    {
        if self.left_days_total == 0 {
            return Err(FloorInfoError { floor, position: Some(FloorPosition::Left) });
        }
        if self.right_days_total == 0 {
            return Err(FloorInfoError { floor, position: Some(FloorPosition::Right) });
        }
        Ok(())
    }
}

impl ThreeApartmentFloorInfo {
    pub fn validate(&self, floor: u32) -> (r: Result<(), FloorInfoError>)
        ensures
            r == floor_check(FloorInfo::ThreeApartments(*self), floor),
    {
        if self.left_days_total == 0 {
            return Err(FloorInfoError { floor, position: Some(FloorPosition::Left) });
        }
        if self.middle_days_total == 0 {
            return Err(FloorInfoError { floor, position: Some(FloorPosition::Middle) });
        }
        if self.right_days_total == 0 {
            return Err(FloorInfoError { floor, position: Some(FloorPosition::Right) });
        }
        Ok(())
    }
}

impl FloorInfo {
    pub fn validate(&self, floor: u32) -> (r: Result<(), FloorInfoError>)
        ensures
            r == floor_check(*self, floor),
            r is Ok <==> info_valid(*self),
    {
        match self {
            FloorInfo::OneApartment(ap) => ap.validate(floor),
            FloorInfo::TwoApartments(ap) => ap.validate(floor),
            FloorInfo::ThreeApartments(ap) => ap.validate(floor),
        }
    }
}

/// The floors `lo`, `lo + 1`, ..., `lo + n - 1`.
pub open spec fn floor_range(lo: int, n: int) -> Set<u32> {
    Set::new(|f: u32| lo <= f < lo + n)
}

proof fn lemma_floor_range_len(lo: u32, n: nat)
    requires
        lo + n <= u32::MAX + 1,
    ensures
        floor_range(lo as int, n as int).finite(),
        floor_range(lo as int, n as int).len() == n,
{
    let s = floor_range(lo as int, n as int);
    if lo + n <= u32::MAX {
        let hi = (lo + n) as u32;
        range_set_properties::<u32>(lo, hi);
        assert(s =~= Set::<u32>::range(lo, hi));
    } else {
        range_set_properties::<u32>(lo, u32::MAX);
        assert(s =~= Set::<u32>::range(lo, u32::MAX).insert(u32::MAX));
    }
}

/// Floor indices are `u32`s, so a building holds at most that many floors above its lowest.
pub proof fn lemma_floor_count_bound(m: Map<u32, FloorInfo>)
    requires
        m.dom().finite(),
    ensures
        floor_min(m) + m.len() <= u32::MAX + 1,
{
    let lo = floor_min(m) as u32;
    let all = floor_range(lo as int, u32::MAX + 1 - lo);
    lemma_floor_range_len(lo, (u32::MAX + 1 - lo) as nat);
    assert(m.dom().subset_of(all));
    lemma_len_subset(m.dom(), all);
}

/// Checks that the floors run from the lowest one upwards without a gap, and
/// that every apartment keeps the slot at least one day. Floors are checked
/// from the lowest up; the first problem found is reported.
pub fn validate_config(cfg: &Config) -> (r: Result<(), ValidationError>)
    ensures
        r is Ok <==> config_valid(cfg.position_map@),
        r matches Err(ValidationError::FloorSkipped(f)) ==> {
            let m = cfg.position_map@;
            &&& !m.contains_key(f)
            &&& floor_min(m) <= f < floor_min(m) + m.len()
            &&& valid_below(m, f as int)
        },
        r matches Err(ValidationError::FloorInfoError(e)) ==> {
            let m = cfg.position_map@;
            &&& m.contains_key(e.floor)
            &&& floor_min(m) <= e.floor
            &&& floor_check(m[e.floor], e.floor) == Err::<(), FloorInfoError>(e)
            &&& valid_below(m, e.floor as int)
        },
        !(r is Err && r->Err_0 is FormatError),
{
    let position_map = &cfg.position_map;
    let ghost m = position_map@;
    let min: u32 = if position_map.contains_key(&0) {
        0
    } else {
        1
    };
    let n = position_map.len();
    proof {
        lemma_floor_count_bound(m);
    }
    let mut k: usize = 0;
    while k < n
        invariant
            m == position_map@,
            m == cfg.position_map@,
            m.dom().finite(),
            min == floor_min(m),
            n == m.len(),
            min + n <= u32::MAX + 1,
            k <= n,
            valid_below(m, min + k),
        decreases n - k,
    {
        let floor: u32 = min + k as u32;
        match position_map.get(&floor) {
            None => {
                assert(!m.contains_key(floor));
                assert(!floors_dense(m));
                return Err(ValidationError::FloorSkipped(floor));
            },
            Some(info) => {
                assert(m.contains_key(floor) && m[floor] == *info);
                if let Err(err) = info.validate(floor) {
                    return Err(ValidationError::FloorInfoError(err));
                }
                assert forall|g: u32| floor_min(m) <= g < min + k + 1 implies #[trigger] m.contains_key(
                    g,
                ) && info_valid(m[g]) by {
                    if g >= min + k {
                        assert(g == floor);
                    }
                }
            },
        }
        k += 1;
    }
    proof {
        let s = floor_range(min as int, n as int);
        lemma_floor_range_len(min, n as nat);
        assert(s.subset_of(m.dom()));
        lemma_subset_equality(s, m.dom());
        assert forall|f: u32| #[trigger] m.contains_key(f) <==> floor_min(m) <= f < floor_min(m)
            + m.len() by {
            assert(m.dom().contains(f) == s.contains(f));
        }
    }
    Ok(())
}

} // verus!
