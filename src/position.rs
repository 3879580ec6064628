use vstd::prelude::*;
use crate::config::{
    info_valid, FloorInfo, SingleApartmentFloorInfo, ThreeApartmentFloorInfo,
    TwoApartmentFloorInfo,
};
use crate::countdown::{side_label, CurrentFloorState, DayState, FloorPosition};

verus! {

/// The configured number of days of `side` on a floor; for a single-apartment
/// floor, that of its apartment whatever the side.
pub open spec fn side_total(info: FloorInfo, side: FloorPosition) -> int {
    match info {
        FloorInfo::OneApartment(i) => i.days_total as int,
        FloorInfo::TwoApartments(i) => match side {
            FloorPosition::Left => i.left_days_total as int,
            FloorPosition::Right => i.right_days_total as int,
            FloorPosition::Middle => 0,
        },
        FloorInfo::ThreeApartments(i) => match side {
            FloorPosition::Left => i.left_days_total as int,
            FloorPosition::Middle => i.middle_days_total as int,
            FloorPosition::Right => i.right_days_total as int,
        },
    }
}

/// Whether the floor has an apartment on `side`.
pub open spec fn side_exists(info: FloorInfo, side: FloorPosition) -> bool {
    match info {
        FloorInfo::OneApartment(_) => true,
        FloorInfo::TwoApartments(_) => side != FloorPosition::Middle,
        FloorInfo::ThreeApartments(_) => true,
    }
}

/// A countdown for an apartment that keeps the slot `total` days, with
/// `days_left` days to go after the current one.
pub open spec fn countdown(total: int, days_left: int) -> DayState {
    DayState { days_left: days_left as u8, days_total: (total - 1) as u8 }
}

/// A fresh turn of `side`: all its days still to come.
pub open spec fn fresh(side: FloorPosition, total: int) -> CurrentFloorState {
    CurrentFloorState { floor_position: side, day_state: countdown(total, total - 1) }
}

#[derive(Clone, Copy, Debug, PartialEq, Eq, Structural)]
pub struct SingleApartmentFloorPos {
    pub position: DayState,
}

#[derive(Clone, Copy, Debug, PartialEq, Eq, Structural)]
pub struct TwoApartmentFloorPos {
    pub position: CurrentFloorState,
}

#[derive(Clone, Copy, Debug, PartialEq, Eq, Structural)]
pub struct ThreeApartmentFloorPos {
    pub position: CurrentFloorState,
}

/// Whose turn it is on a floor, and for how long; the variant follows the
/// floor's layout.
#[derive(Clone, Copy, Debug, PartialEq, Eq, Structural)]
pub enum Position {
    SingleApartmentFloor(SingleApartmentFloorPos),
    TwoApartmentFloor(TwoApartmentFloorPos),
    ThreeApartmentFloor(ThreeApartmentFloorPos),
}

/// The side whose turn comes after `side` on a two-apartment floor.
pub open spec fn two_successor(side: FloorPosition) -> FloorPosition {
    if side == FloorPosition::Left {
        FloorPosition::Right
    } else {
        FloorPosition::Left
    }
}

/// The side whose turn comes after `side` on a three-apartment floor.
pub open spec fn three_successor(side: FloorPosition) -> FloorPosition {
    match side {
        FloorPosition::Left => FloorPosition::Middle,
        FloorPosition::Middle => FloorPosition::Right,
        FloorPosition::Right => FloorPosition::Left,
    }
}

/// The first turn on a floor: its left apartment, or its only one.
pub open spec fn initial_position(info: FloorInfo) -> Position {
    match info {
        FloorInfo::OneApartment(i) => Position::SingleApartmentFloor(
            SingleApartmentFloorPos { position: countdown(i.days_total as int, i.days_total - 1) },
        ),
        FloorInfo::TwoApartments(i) => Position::TwoApartmentFloor(
            TwoApartmentFloorPos { position: fresh(FloorPosition::Left, i.left_days_total as int) },
        ),
        FloorInfo::ThreeApartments(i) => Position::ThreeApartmentFloor(
            ThreeApartmentFloorPos {
                position: fresh(FloorPosition::Left, i.left_days_total as int),
            },
        ),
    }
}

impl Position {
    /// The side whose turn it is (the left one stands for a single apartment).
    pub open spec fn side(self) -> FloorPosition {
        match self {
            Position::SingleApartmentFloor(_) => FloorPosition::Left,
            Position::TwoApartmentFloor(p) => p.position.floor_position,
            Position::ThreeApartmentFloor(p) => p.position.floor_position,
        }
    }

    pub open spec fn countdown(self) -> DayState {
        match self {
            Position::SingleApartmentFloor(p) => p.position,
            Position::TwoApartmentFloor(p) => p.position.day_state,
            Position::ThreeApartmentFloor(p) => p.position.day_state,
        }
    }

    /// The position belongs to a floor laid out as `info`: the variant matches,
    /// the side exists there, and the countdown is one of that side's.
    pub open spec fn wf(self, info: FloorInfo) -> bool {
        &&& info_valid(info)
        &&& match (self, info) {
            (Position::SingleApartmentFloor(_), FloorInfo::OneApartment(_)) => true,
            (Position::TwoApartmentFloor(_), FloorInfo::TwoApartments(_)) => true,
            (Position::ThreeApartmentFloor(_), FloorInfo::ThreeApartments(_)) => true,
            _ => false,
        }
        &&& side_exists(info, self.side())
        &&& self.countdown().days_total == side_total(info, self.side()) - 1
        &&& self.countdown().wf()
    }

    /// The last apartment of the floor in cycle order has used up its turn.
    pub open spec fn last_exhausted(self) -> bool {
        match self {
            Position::SingleApartmentFloor(p) => p.position.exhausted(),
            Position::TwoApartmentFloor(p) => p.position.floor_position == FloorPosition::Right
                && p.position.day_state.exhausted(),
            Position::ThreeApartmentFloor(p) => p.position.floor_position == FloorPosition::Right
                && p.position.day_state.exhausted(),
        }
    }

    /// The position one day later on the same floor: one day fewer for the
    /// same apartment, or, once its turn is used up, a fresh turn for the next
    /// apartment in cycle order. `None` where the layout does not match.
    pub open spec fn advanced(self, info: FloorInfo) -> Option<Position> {
        match (self, info) {
            (Position::SingleApartmentFloor(p), _) => Some(
                Position::SingleApartmentFloor(
                    SingleApartmentFloorPos { position: p.position.advanced() },
                ),
            ),
            (Position::TwoApartmentFloor(p), FloorInfo::TwoApartments(_)) => Some(
                Position::TwoApartmentFloor(
                    TwoApartmentFloorPos {
                        position: if p.position.day_state.exhausted() {
                            let next = two_successor(p.position.floor_position);
                            fresh(next, side_total(info, next))
                        } else {
                            CurrentFloorState {
                                floor_position: p.position.floor_position,
                                day_state: p.position.day_state.advanced(),
                            }
                        },
                    },
                ),
            ),
            (Position::ThreeApartmentFloor(p), FloorInfo::ThreeApartments(_)) => Some(
                Position::ThreeApartmentFloor(
                    ThreeApartmentFloorPos {
                        position: if p.position.day_state.exhausted() {
                            let next = three_successor(p.position.floor_position);
                            fresh(next, side_total(info, next))
                        } else {
                            CurrentFloorState {
                                floor_position: p.position.floor_position,
                                day_state: p.position.day_state.advanced(),
                            }
                        },
                    },
                ),
            ),
            _ => None,
        }
    }

    /// The printed side: empty on a single-apartment floor.
    pub open spec fn label(self) -> Seq<char> {
        match self {
            Position::SingleApartmentFloor(_) => Seq::empty(),
            Position::TwoApartmentFloor(p) => side_label(p.position.floor_position),
            Position::ThreeApartmentFloor(p) => side_label(p.position.floor_position),
        }
    }
}

impl SingleApartmentFloorPos {
    pub fn new(days_total: u8, days_left: u8) -> (r: SingleApartmentFloorPos)
        requires
            days_total >= 1,
        ensures
            r.position == countdown(days_total as int, days_left as int),
    {
        SingleApartmentFloorPos { position: DayState { days_left, days_total: days_total - 1 } }
    }

    pub fn next(&self) -> (r: SingleApartmentFloorPos)
        ensures
            r.position == self.position.advanced(),
    {
        SingleApartmentFloorPos { position: self.position.next() }
    }

    pub fn is_max(&self) -> (r: bool)
        ensures
            r == self.position.exhausted(),
    {
        self.position.is_max()
    }
}

impl TwoApartmentFloorPos {
    pub fn new_left(days_total: u8, days_left: u8) -> (r: TwoApartmentFloorPos)
        requires
            days_total >= 1,
        ensures
            r.position == (CurrentFloorState {
                floor_position: FloorPosition::Left,
                day_state: countdown(days_total as int, days_left as int),
            }),
    {
        let position = CurrentFloorState {
            floor_position: FloorPosition::Left,
            day_state: DayState { days_left, days_total: days_total - 1 },
        };
        TwoApartmentFloorPos { position }
    }

    pub fn new_right(days_total: u8, days_left: u8) -> (r: TwoApartmentFloorPos)
        requires
            days_total >= 1,
        ensures
            r.position == (CurrentFloorState {
                floor_position: FloorPosition::Right,
                day_state: countdown(days_total as int, days_left as int),
            }),
    {
        let position = CurrentFloorState {
            floor_position: FloorPosition::Right,
            day_state: DayState { days_left, days_total: days_total - 1 },
        };
        TwoApartmentFloorPos { position }
    }

    pub fn is_max(&self) -> (r: bool)
        ensures
            r == Position::TwoApartmentFloor(*self).last_exhausted(),
    {
        let position = self.position;
        if FloorPosition::Right == position.floor_position && position.is_max() {
            return true;
        }
        false
    }

    pub fn next(&self, floor_info: &TwoApartmentFloorInfo) -> (r: TwoApartmentFloorPos)
        requires
            info_valid(FloorInfo::TwoApartments(*floor_info)),
        ensures
            Position::TwoApartmentFloor(*self).advanced(FloorInfo::TwoApartments(*floor_info))
                == Some(Position::TwoApartmentFloor(r)),
    {
        let position = self.position;
        if position.is_max() {
            let (next_floor_position, days_total) = if position.floor_position
                == FloorPosition::Left {
                (FloorPosition::Right, floor_info.right_days_total - 1)
            } else {
                (FloorPosition::Left, floor_info.left_days_total - 1)
            };
            let next_position = CurrentFloorState::new(next_floor_position, days_total);
            return TwoApartmentFloorPos { position: next_position };
        }
        let next_position = self.position.next();
        TwoApartmentFloorPos { position: next_position }
    }

    pub fn print(&self) -> (r: String)
        ensures
            r@ == side_label(self.position.floor_position),
    {
        self.position.print()
    }
}

impl ThreeApartmentFloorPos {
    pub fn new_left(days_total: u8, days_left: u8) -> (r: ThreeApartmentFloorPos)
        requires
            days_total >= 1,
        ensures
            r.position == (CurrentFloorState {
                floor_position: FloorPosition::Left,
                day_state: countdown(days_total as int, days_left as int),
            }),
    {
        let position = CurrentFloorState {
            floor_position: FloorPosition::Left,
            day_state: DayState { days_left, days_total: days_total - 1 },
        };
        ThreeApartmentFloorPos { position }
    }

    pub fn new_middle(days_total: u8, days_left: u8) -> (r: ThreeApartmentFloorPos)
        requires
            days_total >= 1,
        ensures
            r.position == (CurrentFloorState {
                floor_position: FloorPosition::Middle,
                day_state: countdown(days_total as int, days_left as int),
            }),
    {
        let position = CurrentFloorState {
            floor_position: FloorPosition::Middle,
            day_state: DayState { days_left, days_total: days_total - 1 },
        };
        ThreeApartmentFloorPos { position }
    }

    pub fn new_right(days_total: u8, days_left: u8) -> (r: ThreeApartmentFloorPos)
        requires
            days_total >= 1,
        ensures
            r.position == (CurrentFloorState {
                floor_position: FloorPosition::Right,
                day_state: countdown(days_total as int, days_left as int),
            }),
    {
        let position = CurrentFloorState {
            floor_position: FloorPosition::Right,
            day_state: DayState { days_left, days_total: days_total - 1 },
        };
        ThreeApartmentFloorPos { position }
    }

    pub fn is_max(&self) -> (r: bool)
        ensures
            r == Position::ThreeApartmentFloor(*self).last_exhausted(),
    {
        let position = self.position;
        if FloorPosition::Right == position.floor_position && position.is_max() {
            return true;
        }
        false
    }

    pub fn next(&self, floor_info: &ThreeApartmentFloorInfo) -> (r: ThreeApartmentFloorPos)
        requires
            info_valid(FloorInfo::ThreeApartments(*floor_info)),
        ensures
            Position::ThreeApartmentFloor(*self).advanced(FloorInfo::ThreeApartments(*floor_info))
                == Some(Position::ThreeApartmentFloor(r)),
    {
        let position = self.position;
        if position.is_max() {
            let (next_floor_position, days_total) = match position.floor_position {
                FloorPosition::Left => (FloorPosition::Middle, floor_info.middle_days_total - 1),
                FloorPosition::Middle => (FloorPosition::Right, floor_info.right_days_total - 1),
                FloorPosition::Right => (FloorPosition::Left, floor_info.left_days_total - 1),
            };
            let next_position = CurrentFloorState::new(next_floor_position, days_total);
            return ThreeApartmentFloorPos { position: next_position };
        }
        let next_position = self.position.next();
        ThreeApartmentFloorPos { position: next_position }
    }

    pub fn print(&self) -> (r: String)
        ensures
            r@ == side_label(self.position.floor_position),
    {
        self.position.print()
    }
}

impl Position {
    /// The position one day later on a floor laid out as `floor_info`; `None`
    /// where the layout does not match the position.
    pub fn next(&self, floor_info: &FloorInfo) -> (r: Option<Position>)
        requires
            info_valid(*floor_info),
        ensures
            r == self.advanced(*floor_info),
    {
        match self {
            Position::SingleApartmentFloor(pos) => Some(Position::SingleApartmentFloor(pos.next())),
            Position::TwoApartmentFloor(pos) => {
                if let FloorInfo::TwoApartments(info) = floor_info {
                    return Some(Position::TwoApartmentFloor(pos.next(info)));
                }
                None
            },
            Position::ThreeApartmentFloor(pos) => {
                if let FloorInfo::ThreeApartments(info) = floor_info {
                    return Some(Position::ThreeApartmentFloor(pos.next(info)));
                }
                None
            },
        }
    }

    /// Whether the floor's turn is over: its last apartment has used up its days.
    pub fn is_max(&self) -> (r: bool)
        ensures
            r == self.last_exhausted(),
    {
        match self {
            Position::SingleApartmentFloor(pos) => pos.is_max(),
            Position::TwoApartmentFloor(pos) => pos.is_max(),
            Position::ThreeApartmentFloor(pos) => pos.is_max(),
        }
    }

    pub fn print(&self) -> (r: String)
        ensures
            r@ == self.label(),
    {
        match self {
            Position::SingleApartmentFloor(_) => String::new(),
            Position::TwoApartmentFloor(pos) => pos.print(),
            Position::ThreeApartmentFloor(pos) => pos.print(),
        }
    }
}

/// The first turn on a floor laid out as `floor_info`.
pub fn initial_appartment_position(floor_info: &FloorInfo) -> (r: Position)
    requires
        info_valid(*floor_info),
    ensures
        r == initial_position(*floor_info),
        r.wf(*floor_info),
{
    match floor_info {
        FloorInfo::OneApartment(info) => Position::SingleApartmentFloor(
            SingleApartmentFloorPos::new(info.days_total, info.days_total - 1),
        ),
        FloorInfo::TwoApartments(info) => Position::TwoApartmentFloor(
            TwoApartmentFloorPos::new_left(info.left_days_total, info.left_days_total - 1),
        ),
        FloorInfo::ThreeApartments(info) => Position::ThreeApartmentFloor(
            ThreeApartmentFloorPos::new_left(info.left_days_total, info.left_days_total - 1),
        ),
    }
}

/// A position resumed from a seed: `days_left` more days for the apartment on
/// `floor_position` (any side names the apartment of a single-apartment floor).
/// `None` where the floor has no such side, or where the side keeps the slot
/// fewer than `days_left + 1` days.
pub fn create_position(floor_info: &FloorInfo, floor_position: &FloorPosition, days_left: u8) -> (r:
    Option<Position>)
    requires
        info_valid(*floor_info),
    ensures
        r is Some <==> side_exists(*floor_info, *floor_position) && days_left < side_total(
            *floor_info,
            *floor_position,
        ),
        r matches Some(p) ==> {
            &&& p.wf(*floor_info)
            &&& p.countdown().days_left == days_left
            &&& (floor_info is OneApartment || p.side() == *floor_position)
        },
{
    match floor_info {
        FloorInfo::OneApartment(info) => {
            if days_left >= info.days_total {
                return None;
            }
            let position = SingleApartmentFloorPos::new(info.days_total, days_left);
            Some(Position::SingleApartmentFloor(position))
        },
        FloorInfo::TwoApartments(info) => match floor_position {
            FloorPosition::Left => {
                if days_left >= info.left_days_total {
                    return None;
                }
                let position = TwoApartmentFloorPos::new_left(info.left_days_total, days_left);
                Some(Position::TwoApartmentFloor(position))
            },
            FloorPosition::Right => {
                if days_left >= info.right_days_total {
                    return None;
                }
                let position = TwoApartmentFloorPos::new_right(info.right_days_total, days_left);
                Some(Position::TwoApartmentFloor(position))
            },
            FloorPosition::Middle => None,
        },
        FloorInfo::ThreeApartments(info) => match floor_position {
            FloorPosition::Left => {
                if days_left >= info.left_days_total {
                    return None;
                }
                let position = ThreeApartmentFloorPos::new_left(info.left_days_total, days_left);
                Some(Position::ThreeApartmentFloor(position))
            },
            FloorPosition::Middle => {
                if days_left >= info.middle_days_total {
                    return None;
                }
                let position = ThreeApartmentFloorPos::new_middle(
                    info.middle_days_total,
                    days_left,
                );
                Some(Position::ThreeApartmentFloor(position))
            },
            FloorPosition::Right => {
                if days_left >= info.right_days_total {
                    return None;
                }
                let position = ThreeApartmentFloorPos::new_right(info.right_days_total, days_left);
                Some(Position::ThreeApartmentFloor(position))
            },
        },
    }
}

} // verus!
