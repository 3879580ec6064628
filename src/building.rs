use std::collections::HashMap;
use vstd::prelude::*;
use crate::config::{
    config_valid, floor_max, floor_min, info_valid, lemma_floor_count_bound, Config, FloorInfo,
};
use crate::countdown::FloorPosition;
use crate::position::{
    create_position, initial_appartment_position, initial_position, side_exists, side_total,
    Position,
};
use crate::config::SingleApartmentFloorInfo;
use crate::text::{decimal, decimal_string, is_digit_char, lemma_decimal_digits, lemma_decimal_injective};

verus! {

/// A pointer to one floor of a building whose floors run from the ground
/// floor 0 (where there is one) or from 1, up to `max`, and then wrap around.
#[derive(Clone, Copy, Debug, PartialEq, Eq, Structural)]
pub struct Floor {
    pub max: u32,
    pub has_ground_floor: bool,
    pub floor: u32,
}

/// The printed name of a floor: `P` for the ground floor, else its number.
pub open spec fn floor_label(floor: u32) -> Seq<char> {
    if floor == 0 {
        "P"@
    } else {
        decimal(floor as nat)
    }
}

impl Floor {
    pub open spec fn lowest(self) -> int {
        if self.has_ground_floor {
            0
        } else {
            1
        }
    }

    pub open spec fn wf(self) -> bool {
        self.lowest() <= self.floor <= self.max
    }

    /// The floor above, or the lowest one after the top floor.
    pub open spec fn advanced(self) -> Floor {
        Floor {
            floor: if self.floor == self.max {
                self.lowest() as u32
            } else {
                (self.floor + 1) as u32
            },
            ..self
        }
    }

    /// The floor `n` steps on.
    pub open spec fn advanced_by(self, n: nat) -> Floor
        decreases n,
    {
        if n == 0 {
            self
        } else {
            self.advanced().advanced_by((n - 1) as nat)
        }
    }

    pub fn next(&self) -> (r: Floor)
        requires
            self.floor <= self.max,
        ensures
            r == self.advanced(),
    {
        if self.is_max() {
            let min: u32 = if self.has_ground_floor {
                0
            } else {
                1
            };
            Floor { max: self.max, has_ground_floor: self.has_ground_floor, floor: min }
        } else {
            Floor { max: self.max, has_ground_floor: self.has_ground_floor, floor: self.floor + 1 }
        }
    }

    pub fn print(&self) -> (r: String)
        ensures
            r@ == floor_label(self.floor),
    {
        if self.floor == 0 {
            return "P".to_owned();
        }
        decimal_string(self.floor as u64)
    }

    pub fn is_max(&self) -> (r: bool)
        ensures
            r == (self.floor == self.max),
    {
        self.floor == self.max
    }
}

/// Where a rotation resumes: a floor, the side on it, and the days that side
/// has left after the current one; with the building's top floor.
#[derive(Clone, Copy, Debug, PartialEq, Eq, Structural)]
pub struct ApartmentInfo {
    pub current_floor: u32,
    pub max_floor: u32,
    pub position: FloorPosition,
    pub days_left: u8,
}

impl ApartmentInfo {
    /// `None` where the building has no floors, or `current_floor` lies above its top floor.
    pub fn new(config: &Config, current_floor: u32, position: FloorPosition, days_left: u8) -> (r:
        Option<ApartmentInfo>)
        requires
            config_valid(config.position_map@),
        ensures
            r is Some <==> config.position_map@.len() > 0 && current_floor <= floor_max(
                config.position_map@,
            ),
            r matches Some(i) ==> i == (ApartmentInfo {
                current_floor,
                max_floor: floor_max(config.position_map@) as u32,
                position,
                days_left,
            }),
    {
        let position_map = &config.position_map;
        let n = position_map.len();
        if n == 0 {
            return None;
        }
        let min: u32 = if position_map.contains_key(&0) {
            0
        } else {
            1
        };
        proof {
            lemma_floor_count_bound(position_map@);
        }
        let max_floor: u32 = min + (n - 1) as u32;
        if current_floor > max_floor {
            return None;
        }
        Some(ApartmentInfo { current_floor, max_floor, position, days_left })
    }
}

/// The state of the rotation: a floor, and whose turn it is on that floor.
#[derive(Clone, Copy, Debug, PartialEq, Eq, Structural)]
pub struct Apartment {
    pub floor: Floor,
    pub position: Position,
}

impl Apartment {
    /// The apartment is one of the building laid out as `m`.
    pub open spec fn wf(self, m: Map<u32, FloorInfo>) -> bool {
        &&& config_valid(m)
        &&& self.floor.max == floor_max(m)
        &&& self.floor.has_ground_floor == m.contains_key(0)
        &&& self.floor.wf()
        &&& self.position.wf(m[self.floor.floor])
    }

    /// One rotation step: where the floor's last apartment has used up its
    /// turn, the first turn of the next floor; otherwise the next position on
    /// the same floor.
    pub open spec fn advanced(self, m: Map<u32, FloorInfo>) -> Apartment {
        if self.position.last_exhausted() {
            let floor = self.floor.advanced();
            Apartment { floor, position: initial_position(m[floor.floor]) }
        } else {
            Apartment {
                floor: self.floor,
                position: self.position.advanced(m[self.floor.floor])->Some_0,
            }
        }
    }

    /// `n` rotation steps.
    pub open spec fn advanced_by(self, m: Map<u32, FloorInfo>, n: nat) -> Apartment
        decreases n,
    {
        if n == 0 {
            self
        } else {
            self.advanced(m).advanced_by(m, (n - 1) as nat)
        }
    }

    /// The printed apartment: the floor alone where it has a single
    /// apartment, else the floor and the side.
    pub open spec fn label(self) -> Seq<char> {
        match self.position {
            Position::SingleApartmentFloor(_) => floor_label(self.floor.floor),
            _ => floor_label(self.floor.floor) + ". "@ + self.position.label(),
        }
    }

    /// The apartment where a rotation resumes. `None` where the building has
    /// no such floor, the floor no such side, or the side fewer days than the seed
    /// asks for.
    pub fn new(appartment_info: ApartmentInfo, position_map: &HashMap<u32, FloorInfo>) -> (r:
        Option<Apartment>)
        requires
            config_valid(position_map@),
        ensures
            ({
                let m = position_map@;
                let f = appartment_info.current_floor;
                r is Some <==> m.contains_key(f) && side_exists(m[f], appartment_info.position)
                    && appartment_info.days_left < side_total(m[f], appartment_info.position)
            }),
            r matches Some(a) ==> {
                let m = position_map@;
                &&& a.floor == (Floor {
                    floor: appartment_info.current_floor,
                    max: appartment_info.max_floor,
                    has_ground_floor: m.contains_key(0),
                })
                &&& a.position.wf(m[a.floor.floor])
                &&& a.position.countdown().days_left == appartment_info.days_left
                &&& (m[a.floor.floor] is OneApartment || a.position.side()
                    == appartment_info.position)
                &&& (appartment_info.max_floor == floor_max(m) ==> a.wf(m))
            },
    {
        let floor = Floor {
            floor: appartment_info.current_floor,
            max: appartment_info.max_floor,
            has_ground_floor: position_map.contains_key(&0),
        };
        let info = position_map.get(&floor.floor)?;
        let position = create_position(info, &appartment_info.position, appartment_info.days_left)?;
        Some(Apartment { floor, position })
    }

    /// The apartment whose turn follows.
    pub fn next(&self, position_map: &HashMap<u32, FloorInfo>) -> (r: Apartment)
        requires
            self.wf(position_map@),
        ensures
            r == self.advanced(position_map@),
            r.wf(position_map@),
    {
        let ghost m = position_map@;
        if self.position.is_max() {
            let next_floor = self.floor.next();
            assert(m.contains_key(next_floor.floor));
            let floor_info = position_map.get(&next_floor.floor).unwrap();
            Apartment { floor: next_floor, position: initial_appartment_position(floor_info) }
        } else {
            assert(m.contains_key(self.floor.floor));
            let floor_info = position_map.get(&self.floor.floor).unwrap();
            let position = self.position.next(floor_info).unwrap();
            Apartment { floor: self.floor, position }
        }
    }

    pub fn print(&self) -> (r: String)
        ensures
            r@ == self.label(),
    {
        match self.position {
            Position::SingleApartmentFloor(_) => self.floor.print(),
            _ => {
                let floor = self.floor.print();
                let side = self.position.print();
                let r = floor.concat(". ").concat(side.as_str());
                r
            },
        }
    }
}

proof fn lemma_floor_steps_add(f: Floor, a: nat, b: nat)
    ensures
        f.advanced_by(a + b) == f.advanced_by(a).advanced_by(b),
    decreases a,
{
    if a > 0 {
        lemma_floor_steps_add(f.advanced(), (a - 1) as nat, b);
        assert((a + b - 1) as nat == (a - 1) as nat + b);
    }
}

proof fn lemma_floor_climb(f: Floor, k: nat)
    requires
        f.wf(),
        k <= f.max - f.floor,
    ensures
        f.advanced_by(k) == (Floor { floor: (f.floor + k) as u32, ..f }),
    decreases k,
{
    if k > 0 {
        lemma_floor_climb(f.advanced(), (k - 1) as nat);
    }
}

/// The floor pointer comes back after as many steps as the building has floors.
pub proof fn lemma_floor_period(f: Floor)
    requires
        f.wf(),
    ensures
        f.advanced_by((f.max - f.lowest() + 1) as nat) == f,
{
    let up = (f.max - f.floor) as nat;
    let rest = (f.floor - f.lowest()) as nat;
    lemma_floor_steps_add(f, up, 1 + rest);
    lemma_floor_climb(f, up);
    let top = f.advanced_by(up);
    lemma_floor_steps_add(top, 1, rest);
    let bottom = top.advanced();
    assert(bottom.advanced_by(0) == bottom);
    assert(top.advanced_by(1) == bottom);
    lemma_floor_climb(bottom, rest);
    assert(bottom.advanced_by(rest) == f);
    assert(up + (1 + rest) == (f.max - f.lowest() + 1) as nat);
}

/// A floor's printed name is nonempty and holds no dot.
proof fn lemma_floor_label_chars(f: u32)
    ensures
        floor_label(f).len() >= 1,
        forall|i: int| 0 <= i < floor_label(f).len() ==> #[trigger] floor_label(f)[i] != '.',
{
    reveal_strlit("P");
    lemma_decimal_digits(f as nat);
    if f != 0 {
        assert forall|i: int| 0 <= i < floor_label(f).len() implies #[trigger] floor_label(f)[i]
            != '.' by {
            assert(is_digit_char(decimal(f as nat)[i]));
        }
    }
}

/// Different floors have different printed names.
proof fn lemma_floor_label_injective(f: u32, g: u32)
    requires
        floor_label(f) == floor_label(g),
    ensures
        f == g,
{
    reveal_strlit("P");
    lemma_decimal_digits(f as nat);
    lemma_decimal_digits(g as nat);
    if f == 0 && g != 0 {
        assert(is_digit_char(decimal(g as nat)[0]));
    } else if f != 0 && g == 0 {
        assert(is_digit_char(decimal(f as nat)[0]));
    } else if f != 0 && g != 0 {
        lemma_decimal_injective(f as nat, g as nat);
    }
}

/// A single-apartment floor whose apartment keeps the slot one day hands the
/// slot on after every step: the rotation moves to the next floor, and where
/// that is another floor the printed apartment changes.
pub proof fn lemma_single_floor_label_changes(a: Apartment, m: Map<u32, FloorInfo>)
    requires
        a.wf(m),
        m[a.floor.floor] == FloorInfo::OneApartment(SingleApartmentFloorInfo { days_total: 1 }),
        a.floor.advanced().floor != a.floor.floor,
    ensures
        a.advanced(m).floor == a.floor.advanced(),
        a.advanced(m).label() != a.label(),
{
    let next = a.advanced(m);
    let f = a.floor.floor;
    let g = next.floor.floor;
    assert(a.position.last_exhausted());
    assert(a.label() == floor_label(f));
    lemma_floor_label_chars(f);
    lemma_floor_label_chars(g);
    match next.position {
        Position::SingleApartmentFloor(_) => {
            if next.label() == a.label() {
                lemma_floor_label_injective(f, g);
            }
        },
        _ => {
            reveal_strlit(". ");
            let k = floor_label(g).len() as int;
            assert(next.label()[k] == '.');
            if next.label() == a.label() {
                assert(floor_label(f)[k] == '.');
            }
        },
    }
}

} // verus!
